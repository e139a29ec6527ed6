//! ffmpeg / ffprobe: where the binaries are looked for, which hardware
//! encoder the `ffmpeg -encoders` listing offers, and what an ffprobe
//! report says about a video stream.
use vstd::prelude::*;

use crate::paths::{is_join_of, join_base, join_part, join_parts, str_seq};
use crate::tools::is_listed;
use crate::text::{
    chars_eq_str, contains_str, lines, occurs_in, parse_decimal, parse_unsigned, split_lines,
    split_once, split_once_chars, str_eq, string_from_chars, to_chars, trim, trim_chars,
};

verus! {

// ---------------------------------------------------------------------
// Binary location
// ---------------------------------------------------------------------

/// File name of the ffmpeg binary.
pub open spec fn spec_ffmpeg_bin(windows: bool) -> Seq<char> {
    if windows {
        "ffmpeg.exe"@
    } else {
        "ffmpeg"@
    }
}

/// File name of the ffprobe binary.
pub open spec fn spec_ffprobe_bin(windows: bool) -> Seq<char> {
    if windows {
        "ffprobe.exe"@
    } else {
        "ffprobe"@
    }
}

pub fn ffmpeg_bin(windows: bool) -> (s: &'static str)
    ensures
        s@ == spec_ffmpeg_bin(windows),
{
    if windows {
        "ffmpeg.exe"
    } else {
        "ffmpeg"
    }
}

pub fn ffprobe_bin(windows: bool) -> (s: &'static str)
    ensures
        s@ == spec_ffprobe_bin(windows),
{
    if windows {
        "ffprobe.exe"
    } else {
        "ffprobe"
    }
}

/// Why a binary could not be located.
pub enum BinError {
    /// The executable's own directory is unknown.
    NoExeDir,
    /// No candidate exists.
    NotFound { name: String },
}

/// Where a binary is searched for.
pub struct BinSearch {
    /// The `NSAY_FFMPEG_DIR` override, when set.
    pub env_dir: Option<String>,
    /// The directory holding the application executable, when known.
    pub exe_dir: Option<String>,
    /// `exe_dir` and each of its ancestors, nearest first.
    pub ancestors: Vec<String>,
}

/// The components under the executable's directory where a bundle keeps
/// the binary.
pub open spec fn bundle_parts(name: Seq<char>) -> Seq<Seq<char>> {
    seq!["binaries"@, "ffmpeg"@, name]
}

/// The components under a source checkout where a development build keeps
/// the binary.
pub open spec fn checkout_parts(name: Seq<char>) -> Seq<Seq<char>> {
    seq!["src-tauri"@, "binaries"@, "ffmpeg"@, name]
}

/// `c` is the candidate list for `name` under `search`, in the order they
/// are tried: the override directory, `<exe>/binaries/ffmpeg`, `<exe>`,
/// then `<ancestor>/src-tauri/binaries/ffmpeg` for each ancestor. Each
/// candidate is stated for directories that `Path::join` extends alike
/// everywhere (`join_base`).
pub open spec fn candidates_for(c: Seq<String>, name: Seq<char>, search: BinSearch) -> bool {
    let e: int = if search.env_dir is Some {
        1
    } else {
        0
    };
    &&& search.exe_dir is None ==> c.len() == e
    &&& search.exe_dir is Some ==> c.len() == e + 2 + search.ancestors@.len()
    &&& join_part(name) ==> (search.env_dir matches Some(d) ==> (join_base(d@) ==> is_join_of(
        c[0]@,
        d@,
        seq![name],
    )))
    &&& join_part(name) ==> (search.exe_dir matches Some(x) ==> (join_base(x@) ==> is_join_of(
        c[e]@,
        x@,
        bundle_parts(name),
    ) && is_join_of(c[e + 1]@, x@, seq![name])))
    &&& join_part(name) && search.exe_dir is Some ==> forall|i: int|
        0 <= i < search.ancestors@.len() && join_base(search.ancestors@[i]@) ==> is_join_of(
            #[trigger] c[e + 2 + i]@,
            search.ancestors@[i]@,
            checkout_parts(name),
        )
}

/// The candidate paths for `name`, in the order they are tried
/// (`candidates_for`). The second component is how many leading
/// candidates do not need the executable's directory.
pub fn bin_candidates(name: &str, search: &BinSearch) -> (r: (Vec<String>, usize))
    ensures
        r.1 == (if search.env_dir is Some {
            1int
        } else {
            0
        }),
        r.1 <= r.0@.len(),
        candidates_for(r.0@, name@, *search),
{
    proof {
        reveal_strlit("binaries");
        reveal_strlit("ffmpeg");
        reveal_strlit("src-tauri");
    }
    let mut out: Vec<String> = Vec::new();
    let single = vec![name];
    proof {
        assert(str_seq(single@) =~= seq![name@]);
    }
    match &search.env_dir {
        Some(d) => {
            out.push(join_parts(d.as_str(), &single));
        },
        None => {},
    }
    let env_count = out.len();
    match &search.exe_dir {
        Some(exe) => {
            let bundle = vec!["binaries", "ffmpeg", name];
            let checkout = vec!["src-tauri", "binaries", "ffmpeg", name];
            proof {
                assert(str_seq(bundle@) =~= bundle_parts(name@));
                assert(str_seq(checkout@) =~= checkout_parts(name@));
                if join_part(name@) {
                    assert forall|m: int| 0 <= m < bundle@.len() implies join_part(
                        #[trigger] bundle@[m]@,
                    ) by {
                        assert(bundle@[m]@ == bundle_parts(name@)[m]);
                    }
                    assert forall|m: int| 0 <= m < checkout@.len() implies join_part(
                        #[trigger] checkout@[m]@,
                    ) by {
                        assert(checkout@[m]@ == checkout_parts(name@)[m]);
                    }
                }
            }
            out.push(join_parts(exe.as_str(), &bundle));
            out.push(join_parts(exe.as_str(), &single));
            let ghost head = out@;
            let mut i: usize = 0;
            while i < search.ancestors.len()
                invariant
                    i <= search.ancestors@.len(),
                    head.len() == env_count + 2,
                    out@.len() == env_count + 2 + i,
                    forall|m: int| 0 <= m < head.len() ==> #[trigger] out@[m] == head[m],
                    str_seq(checkout@) == checkout_parts(name@),
                    join_part(name@) ==> forall|m: int|
                        0 <= m < checkout@.len() ==> join_part(#[trigger] checkout@[m]@),
                    join_part(name@) ==> forall|m: int|
                        #![trigger search.ancestors@[m]]
                        0 <= m < i && join_base(search.ancestors@[m]@) ==> is_join_of(
                            out@[env_count + 2 + m]@,
                            search.ancestors@[m]@,
                            checkout_parts(name@),
                        ),
                decreases search.ancestors@.len() - i,
            {
                let dir = &search.ancestors[i];
                out.push(join_parts(dir.as_str(), &checkout));
                i = i + 1;
            }
        },
        None => {},
    }
    (out, env_count)
}

/// Index of the first candidate listed in `existing`.
pub open spec fn first_existing(cands: Seq<String>, existing: Seq<String>, from: int) -> Option<int>
    decreases cands.len() - from,
{
    if from < 0 || from >= cands.len() {
        None
    } else if crate::tools::listed(existing, cands[from]@) {
        Some(from)
    } else {
        first_existing(cands, existing, from + 1)
    }
}

proof fn lemma_first_existing_skip(cands: Seq<String>, existing: Seq<String>, i: int)
    requires
        0 <= i <= cands.len(),
        forall|k: int| 0 <= k < i ==> !crate::tools::listed(existing, #[trigger] cands[k]@),
    ensures
        first_existing(cands, existing, 0) == first_existing(cands, existing, i),
    decreases i,
{
    if i > 0 {
        lemma_first_existing_skip(cands, existing, i - 1);
    }
}

/// What locating a binary yields from its candidate list: the first
/// candidate that exists, except that candidates past the first
/// `env_count` are only tried when the executable's directory is known.
pub open spec fn spec_pick_candidate(
    cands: Seq<String>,
    env_count: int,
    exe_known: bool,
    existing: Seq<String>,
) -> Result<Seq<char>, ()> {
    match first_existing(cands, existing, 0) {
        Some(i) => if i < env_count || exe_known {
            Ok(cands[i]@)
        } else {
            Err(())
        },
        None => Err(()),
    }
}

/// Pick the first existing candidate (see `spec_pick_candidate`).
pub fn pick_candidate(
    cands: &Vec<String>,
    env_count: usize,
    exe_known: bool,
    existing: &Vec<String>,
) -> (r: Option<String>)
    requires
        env_count <= cands@.len(),
    ensures
        r is Some <==> spec_pick_candidate(cands@, env_count as int, exe_known, existing@) is Ok,
        r matches Some(p) ==> spec_pick_candidate(cands@, env_count as int, exe_known, existing@)
            == Ok::<Seq<char>, ()>(p@),
{
    let mut i: usize = 0;
    while i < cands.len()
        invariant
            i <= cands@.len(),
            forall|k: int| 0 <= k < i ==> !crate::tools::listed(existing@, #[trigger] cands@[k]@),
        decreases cands@.len() - i,
    {
        if is_listed(existing, cands[i].as_str()) {
            proof {
                lemma_first_existing_skip(cands@, existing@, i as int);
            }
            if i < env_count || exe_known {
                return Some(cands[i].clone());
            } else {
                return None;
            }
        }
        i = i + 1;
    }
    proof {
        lemma_first_existing_skip(cands@, existing@, i as int);
    }
    None
}

/// What locating `name` answers from candidate list `cands` (whose first
/// `env_count` do not need the executable's directory): the first
/// candidate listed in `existing`; else, without the executable's
/// directory, `NoExeDir`; else `NotFound` with the binary's name.
pub open spec fn locate_result(
    r: Result<String, BinError>,
    cands: Seq<String>,
    env_count: int,
    exe_known: bool,
    existing: Seq<String>,
    name: Seq<char>,
) -> bool {
    match spec_pick_candidate(cands, env_count, exe_known, existing) {
        Ok(p) => r matches Ok(q) && q@ == p,
        Err(_) => if exe_known {
            r matches Err(BinError::NotFound { name: n }) && n@ == name
        } else {
            r matches Err(BinError::NoExeDir)
        },
    }
}

/// The count of candidates that do not need the executable's directory.
pub open spec fn env_count_of(search: BinSearch) -> int {
    if search.env_dir is Some {
        1
    } else {
        0
    }
}

/// `r` is what locating `name` under `search` answers, `existing` listing
/// the candidates found on disk: the first existing candidate in the order
/// of `candidates_for`, else the error.
pub open spec fn locates(
    r: Result<String, BinError>,
    name: Seq<char>,
    search: BinSearch,
    existing: Seq<String>,
) -> bool {
    exists|c: Seq<String>|
        #![trigger candidates_for(c, name, search)]
        candidates_for(c, name, search) && env_count_of(search) <= c.len() && locate_result(
            r,
            c,
            env_count_of(search),
            search.exe_dir is Some,
            existing,
            name,
        )
}

fn resolve_bin(name: &str, search: &BinSearch, existing: &Vec<String>) -> (r: Result<
    String,
    BinError,
>)
    ensures
        locates(r, name@, *search, existing@),
        r matches Ok(p) ==> crate::tools::listed(existing@, p@),
{
    let (cands, env_count) = bin_candidates(name, search);
    let exe_known = search.exe_dir.is_some();
    let r = match pick_candidate(&cands, env_count, exe_known, existing) {
        Some(p) => {
            proof {
                lemma_first_existing_found(cands@, existing@, 0);
            }
            Ok(p)
        },
        None => {
            if !exe_known {
                Err(BinError::NoExeDir)
            } else {
                Err(BinError::NotFound { name: String::from_str(name) })
            }
        },
    };
    proof {
        assert(candidates_for(cands@, name@, *search));
        assert(locate_result(r, cands@, env_count as int, exe_known, existing@, name@));
    }
    r
}

proof fn lemma_first_existing_found(cands: Seq<String>, existing: Seq<String>, from: int)
    ensures
        first_existing(cands, existing, from) matches Some(i) ==> from <= i < cands.len()
            && crate::tools::listed(existing, cands[i]@),
    decreases cands.len() - from,
{
    if 0 <= from < cands.len() && !crate::tools::listed(existing, cands[from]@) {
        lemma_first_existing_found(cands, existing, from + 1);
    }
}

/// Locate ffmpeg (`ffmpeg.exe` on Windows): the first of its candidates,
/// in the order of `candidates_for`, that `existing` lists; `NoExeDir` when
/// none is found and the executable's directory is unknown; else
/// `NotFound`.
pub fn ffmpeg_path(windows: bool, search: &BinSearch, existing: &Vec<String>) -> (r: Result<
    String,
    BinError,
>)
    ensures
        locates(r, spec_ffmpeg_bin(windows), *search, existing@),
        r matches Ok(p) ==> crate::tools::listed(existing@, p@),
{
    resolve_bin(ffmpeg_bin(windows), search, existing)
}

/// Locate ffprobe (`ffprobe.exe` on Windows), as `ffmpeg_path` locates
/// ffmpeg.
pub fn ffprobe_path(windows: bool, search: &BinSearch, existing: &Vec<String>) -> (r: Result<
    String,
    BinError,
>)
    ensures
        locates(r, spec_ffprobe_bin(windows), *search, existing@),
        r matches Ok(p) ==> crate::tools::listed(existing@, p@),
{
    resolve_bin(ffprobe_bin(windows), search, existing)
}

// ---------------------------------------------------------------------
// Encoder choice
// ---------------------------------------------------------------------

/// The video encoders picked for output: h264 and hevc encoder names and
/// the family label shown to the user.
#[derive(Clone, Copy)]
pub struct EncoderChoice {
    pub h264: &'static str,
    pub hevc: &'static str,
    pub family: &'static str,
}

/// The encoder choice for an `ffmpeg -encoders` listing: NVENC, then QSV,
/// then AMF, each only when its h264 encoder is listed (its hevc encoder
/// falls back to libx265 when absent), else libx264/libx265.
pub open spec fn spec_detect_encoder(listing: Seq<char>) -> EncoderChoice {
    if occurs_in(listing, " h264_nvenc "@) {
        EncoderChoice {
            h264: "h264_nvenc",
            hevc: if occurs_in(listing, " hevc_nvenc "@) {
                "hevc_nvenc"
            } else {
                "libx265"
            },
            family: "nvenc",
        }
    } else if occurs_in(listing, " h264_qsv "@) {
        EncoderChoice {
            h264: "h264_qsv",
            hevc: if occurs_in(listing, " hevc_qsv "@) {
                "hevc_qsv"
            } else {
                "libx265"
            },
            family: "qsv",
        }
    } else if occurs_in(listing, " h264_amf "@) {
        EncoderChoice {
            h264: "h264_amf",
            hevc: if occurs_in(listing, " hevc_amf "@) {
                "hevc_amf"
            } else {
                "libx265"
            },
            family: "amf",
        }
    } else {
        EncoderChoice { h264: "libx264", hevc: "libx265", family: "x264" }
    }
}

/// The encoder families are tried in the order NVENC, QSV, AMF, then the
/// software encoders: a family is chosen exactly when its h264 encoder is
/// listed and no earlier family's is, and its hevc encoder is used when
/// listed (libx265 otherwise).
pub proof fn lemma_encoder_priority(l: Seq<char>)
    ensures
        occurs_in(l, " h264_nvenc "@) ==> spec_detect_encoder(l).h264@ == "h264_nvenc"@
            && spec_detect_encoder(l).family@ == "nvenc"@,
        !occurs_in(l, " h264_nvenc "@) && occurs_in(l, " h264_qsv "@) ==> spec_detect_encoder(
            l,
        ).h264@ == "h264_qsv"@ && spec_detect_encoder(l).family@ == "qsv"@,
        !occurs_in(l, " h264_nvenc "@) && !occurs_in(l, " h264_qsv "@) && occurs_in(
            l,
            " h264_amf "@,
        ) ==> spec_detect_encoder(l).h264@ == "h264_amf"@ && spec_detect_encoder(l).family@
            == "amf"@,
        !occurs_in(l, " h264_nvenc "@) && !occurs_in(l, " h264_qsv "@) && !occurs_in(
            l,
            " h264_amf "@,
        ) ==> spec_detect_encoder(l).h264@ == "libx264"@ && spec_detect_encoder(l).hevc@
            == "libx265"@ && spec_detect_encoder(l).family@ == "x264"@,
        !occurs_in(l, " h264_nvenc "@) && occurs_in(l, " h264_qsv "@) ==> (spec_detect_encoder(
            l,
        ).hevc@ == "hevc_qsv"@ <==> occurs_in(l, " hevc_qsv "@)),
{
    reveal_strlit("hevc_qsv");
    reveal_strlit("libx265");
    assert("hevc_qsv"@.len() != "libx265"@.len());
}

/// Choose encoders from the text of `ffmpeg -hide_banner -encoders` (an
/// empty listing when ffmpeg could not be run).
pub fn detect_encoder(listing: &str) -> (r: EncoderChoice)
    ensures
        r == spec_detect_encoder(listing@),
{
    if contains_str(listing, " h264_nvenc ") {
        return EncoderChoice {
            h264: "h264_nvenc",
            hevc: if contains_str(listing, " hevc_nvenc ") {
                "hevc_nvenc"
            } else {
                "libx265"
            },
            family: "nvenc",
        };
    }
    if contains_str(listing, " h264_qsv ") {
        return EncoderChoice {
            h264: "h264_qsv",
            hevc: if contains_str(listing, " hevc_qsv ") {
                "hevc_qsv"
            } else {
                "libx265"
            },
            family: "qsv",
        };
    }
    if contains_str(listing, " h264_amf ") {
        return EncoderChoice {
            h264: "h264_amf",
            hevc: if contains_str(listing, " hevc_amf ") {
                "hevc_amf"
            } else {
                "libx265"
            },
            family: "amf",
        };
    }
    EncoderChoice { h264: "libx264", hevc: "libx265", family: "x264" }
}

/// The encoder choice a process uses: the one already decided, if any,
/// else the choice for `listing`.
pub open spec fn spec_cached_choice(cached: Option<EncoderChoice>, listing: Seq<char>) -> EncoderChoice {
    match cached {
        Some(c) => c,
        None => spec_detect_encoder(listing),
    }
}

/// The encoder choice of a process, decided once: `ffmpeg -encoders` is
/// asked only while nothing is decided.
pub struct EncoderCache {
    pub choice: Option<EncoderChoice>,
}

impl EncoderCache {
    pub fn new() -> (r: EncoderCache)
        ensures
            r.choice is None,
    {
        EncoderCache { choice: None }
    }

    /// Whether ffmpeg's encoder listing is still needed.
    pub fn needs_listing(&self) -> (r: bool)
        ensures
            r <==> self.choice is None,
    {
        self.choice.is_none()
    }

    /// The encoders to use: the choice already decided, whatever `listing`
    /// says now; else the choice for `listing` (empty when ffmpeg could not
    /// be run), which is kept from then on.
    pub fn get_or_choose(&mut self, listing: &str) -> (r: EncoderChoice)
        ensures
            r == spec_cached_choice(old(self).choice, listing@),
            final(self).choice == Some(r),
    {
        match self.choice {
            Some(c) => c,
            None => {
                let c = detect_encoder(listing);
                self.choice = Some(c);
                c
            },
        }
    }
}

/// Once a process has decided its encoders, every later request gets the
/// same choice, whatever ffmpeg's listing would be by then.
pub proof fn lemma_encoder_decided_once(
    cached: Option<EncoderChoice>,
    first: Seq<char>,
    later: Seq<char>,
)
    ensures
        spec_cached_choice(Some(spec_cached_choice(cached, first)), later) == spec_cached_choice(
            cached,
            first,
        ),
{
}

// ---------------------------------------------------------------------
// ffprobe report
// ---------------------------------------------------------------------

/// The stream fields read from an ffprobe report. `duration_text` is the
/// trimmed text of the last `duration=` line (empty when there is none);
/// turning it into seconds is left to the caller.
pub struct ProbeFields {
    pub width: u32,
    pub height: u32,
    pub fps_num: u32,
    pub fps_den: u32,
    pub nb_frames: u64,
    pub duration_text: String,
}

/// The mathematical content of `ProbeFields`.
pub struct ProbeView {
    pub width: nat,
    pub height: nat,
    pub fps_num: nat,
    pub fps_den: nat,
    pub nb_frames: nat,
    pub duration: Seq<char>,
}

impl ProbeFields {
    pub open spec fn view(&self) -> ProbeView {
        ProbeView {
            width: self.width as nat,
            height: self.height as nat,
            fps_num: self.fps_num as nat,
            fps_den: self.fps_den as nat,
            nb_frames: self.nb_frames as nat,
            duration: self.duration_text@,
        }
    }
}

pub open spec fn u32_max() -> nat {
    0xffff_ffff
}

pub open spec fn u64_max() -> nat {
    0xffff_ffff_ffff_ffff
}

/// `s.parse().unwrap_or(dflt)` for an unsigned type with largest value
/// `max`.
pub open spec fn parse_or(s: Seq<char>, max: nat, dflt: nat) -> nat {
    match parse_unsigned(s, max) {
        Some(v) => v,
        None => dflt,
    }
}

pub open spec fn probe_init() -> ProbeView {
    ProbeView { width: 0, height: 0, fps_num: 0, fps_den: 1, nb_frames: 0, duration: seq![] }
}

/// The effect of one report line.
pub open spec fn probe_line(acc: ProbeView, line: Seq<char>) -> ProbeView {
    match split_once(line, '=') {
        None => acc,
        Some((k, v)) => {
            let t = trim(v);
            if k == "width"@ {
                ProbeView { width: parse_or(t, u32_max(), 0), ..acc }
            } else if k == "height"@ {
                ProbeView { height: parse_or(t, u32_max(), 0), ..acc }
            } else if k == "r_frame_rate"@ {
                match split_once(t, '/') {
                    Some((n, d)) => {
                        let den = parse_or(d, u32_max(), 1);
                        ProbeView {
                            fps_num: parse_or(n, u32_max(), 0),
                            fps_den: if den < 1 {
                                1
                            } else {
                                den
                            },
                            ..acc
                        }
                    },
                    None => acc,
                }
            } else if k == "nb_frames"@ {
                ProbeView { nb_frames: parse_or(t, u64_max(), 0), ..acc }
            } else if k == "duration"@ {
                ProbeView { duration: t, ..acc }
            } else {
                acc
            }
        },
    }
}

/// The fields after reading `lines` in order.
pub open spec fn probe_fold(lines: Seq<Seq<char>>) -> ProbeView
    decreases lines.len(),
{
    if lines.len() == 0 {
        probe_init()
    } else {
        probe_line(probe_fold(lines.drop_last()), lines.last())
    }
}

/// What `parse_probe` answers for a report: the fields, unless the width,
/// height or frame-rate numerator is missing or zero.
pub open spec fn spec_parse_probe(raw: Seq<char>) -> Option<ProbeView> {
    let f = probe_fold(lines(raw));
    if f.width == 0 || f.height == 0 || f.fps_num == 0 {
        None
    } else {
        Some(f)
    }
}

fn parse_or_u32(s: &[char], dflt: u32) -> (r: u32)
    ensures
        r as nat == parse_or(s@, u32_max(), dflt as nat),
{
    match parse_decimal(s, 0xffff_ffff) {
        Some(v) => v as u32,
        None => dflt,
    }
}

fn parse_or_u64(s: &[char], dflt: u64) -> (r: u64)
    ensures
        r as nat == parse_or(s@, u64_max(), dflt as nat),
{
    match parse_decimal(s, 0xffff_ffff_ffff_ffff) {
        Some(v) => v,
        None => dflt,
    }
}

/// Read the stream fields from the text of an ffprobe report
/// (`-show_entries stream=width,height,r_frame_rate,nb_frames,duration
/// -of default=noprint_wrappers=1`). `None` when width, height or the
/// frame-rate numerator is missing or zero.
pub fn parse_probe(raw: &str) -> (r: Option<ProbeFields>)
    ensures
        r is Some <==> spec_parse_probe(raw@) is Some,
        r matches Some(f) ==> spec_parse_probe(raw@) == Some(f.view()),
{
    let chars = to_chars(raw);
    let ls = split_lines(chars.as_slice());
    let ghost all = lines(raw@);
    let mut width: u32 = 0;
    let mut height: u32 = 0;
    let mut fps_num: u32 = 0;
    let mut fps_den: u32 = 1;
    let mut nb_frames: u64 = 0;
    let mut duration: Vec<char> = Vec::new();
    let mut i: usize = 0;
    assert(all.take(0) =~= Seq::<Seq<char>>::empty());
    while i < ls.len()
        invariant
            ls@.len() == all.len(),
            forall|j: int| 0 <= j < ls@.len() ==> #[trigger] ls@[j]@ == all[j],
            i <= ls@.len(),
            probe_fold(all.take(i as int)) == (ProbeView {
                width: width as nat,
                height: height as nat,
                fps_num: fps_num as nat,
                fps_den: fps_den as nat,
                nb_frames: nb_frames as nat,
                duration: duration@,
            }),
        decreases ls@.len() - i,
    {
        let line = &ls[i];
        proof {
            assert(all.take(i + 1).drop_last() =~= all.take(i as int));
            assert(all.take(i + 1).last() == line@);
        }
        match split_once_chars(line.as_slice(), '=') {
            None => {},
            Some((k, v)) => {
                let t = trim_chars(v.as_slice());
                if chars_eq_str(k.as_slice(), "width") {
                    width = parse_or_u32(t.as_slice(), 0);
                } else if chars_eq_str(k.as_slice(), "height") {
                    height = parse_or_u32(t.as_slice(), 0);
                } else if chars_eq_str(k.as_slice(), "r_frame_rate") {
                    match split_once_chars(t.as_slice(), '/') {
                        Some((n, d)) => {
                            fps_num = parse_or_u32(n.as_slice(), 0);
                            let den = parse_or_u32(d.as_slice(), 1);
                            fps_den = if den < 1 {
                                1
                            } else {
                                den
                            };
                        },
                        None => {},
                    }
                } else if chars_eq_str(k.as_slice(), "nb_frames") {
                    nb_frames = parse_or_u64(t.as_slice(), 0);
                } else if chars_eq_str(k.as_slice(), "duration") {
                    duration = t;
                }
            },
        }
        i = i + 1;
    }
    assert(all.take(i as int) =~= all);
    if width == 0 || height == 0 || fps_num == 0 {
        return None;
    }
    Some(
        ProbeFields {
            width,
            height,
            fps_num,
            fps_den,
            nb_frames,
            duration_text: string_from_chars(duration.as_slice()),
        },
    )
}

} // verus!
