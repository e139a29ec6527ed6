//! Model management: where models live, what the catalogue looks like on
//! this machine, and the bookkeeping of downloads in flight.
use vstd::prelude::*;

use crate::models::{catalog, find, spec_catalog, spec_find, ModelEntry};
use crate::paths::{
    is_join_of, join_base, join_part, join_parts, path_is_absolute, path_join, portable_path, str_seq,
};
use crate::text::{
    concat2, eq_ignore_ascii_case, eq_ignore_case, parse_decimal, parse_unsigned, str_eq, to_chars,
};
use crate::tools::{is_listed, listed};

verus! {

/// Model bookkeeping: the configured models directory and the ids whose
/// download is under way.
pub struct ModelState {
    pub models_dir: String,
    pub in_flight: Vec<String>,
}

/// One catalogue entry as the settings screen shows it.
pub struct ModelInfo {
    pub id: String,
    pub family: String,
    pub label: String,
    pub size_mb: u32,
    pub installed: bool,
    pub downloading: bool,
    pub local_path: Option<String>,
    /// The native output:input ratio; 0 for other than upscale models.
    pub output_scale: u32,
}

/// The views of a list of strings.
pub open spec fn views(s: Seq<String>) -> Seq<Seq<char>> {
    s.map_values(|x: String| x@)
}

// ---------------------------------------------------------------------
// The models directory
// ---------------------------------------------------------------------

/// Where the models directory comes from.
pub enum ModelsDirChoice {
    /// The `NSAY_MODELS_DIR` override, taken as it is.
    Env(String),
    /// The configured directory, which is absolute.
    Configured,
    /// The configured (relative) directory under `<base>/nsay`, where
    /// `base` is the user data directory, or `.` when there is none.
    UnderData { base: String },
}

/// The order of precedence: the override, then an absolute configured
/// directory, then the configured directory under the user data root.
pub fn choose_models_dir(env_dir: Option<String>, dir_is_absolute: bool, data_dir: Option<
    String,
>) -> (r: ModelsDirChoice)
    ensures
        env_dir matches Some(e) ==> (r matches ModelsDirChoice::Env(x) && x@ == e@),
        env_dir is None && dir_is_absolute ==> r is Configured,
        env_dir is None && !dir_is_absolute ==> (r matches ModelsDirChoice::UnderData { base } && (
        match data_dir {
            Some(d) => base@ == d@,
            None => base@ == "."@,
        })),
{
    match env_dir {
        Some(e) => ModelsDirChoice::Env(e),
        None => {
            if dir_is_absolute {
                ModelsDirChoice::Configured
            } else {
                match data_dir {
                    Some(d) => ModelsDirChoice::UnderData { base: d },
                    None => ModelsDirChoice::UnderData { base: String::from_str(".") },
                }
            }
        },
    }
}

/// The models directory once it is known whether the configured one
/// (`models_dir`) is absolute: the override `env_dir` if set, else the
/// configured directory if absolute, else it joined under
/// `<data_dir>/nsay` (`.` standing for a missing data directory).
pub fn models_dir_from(env_dir: Option<String>, dir_is_absolute: bool, models_dir: &str, data_dir: Option<
    String,
>) -> (r: String)
    ensures
        env_dir matches Some(e) ==> r@ == e@,
        env_dir is None && dir_is_absolute ==> r@ == models_dir@,
        env_dir is None && !dir_is_absolute && join_part(models_dir@) ==> (data_dir matches Some(d)
            ==> (join_base(d@) ==> is_join_of(r@, d@, seq!["nsay"@, models_dir@]))),
        env_dir is None && !dir_is_absolute && join_part(models_dir@) ==> (data_dir is None
            ==> is_join_of(r@, "."@, seq!["nsay"@, models_dir@])),
{
    match choose_models_dir(env_dir, dir_is_absolute, data_dir) {
        ModelsDirChoice::Env(e) => e,
        ModelsDirChoice::Configured => String::from_str(models_dir),
        ModelsDirChoice::UnderData { base } => {
            let parts = vec!["nsay", models_dir];
            proof {
                reveal_strlit("nsay");
                reveal_strlit(".");
                assert(str_seq(parts@) =~= seq!["nsay"@, models_dir@]);
                if join_part(models_dir@) {
                    assert forall|m: int| 0 <= m < parts@.len() implies join_part(
                        #[trigger] parts@[m]@,
                    ) by {
                        assert(parts@[m]@ == seq!["nsay"@, models_dir@][m]);
                    }
                }
            }
            join_parts(base.as_str(), &parts)
        },
    }
}

/// The models directory: the override `env_dir` if set, else the
/// configured directory if absolute, else it under `<data_dir>/nsay`.
/// Whether a path is absolute follows the platform's rules: a configured
/// directory that does not start with `/` (and has no drive prefix) is
/// relative everywhere, and goes under the data directory.
pub fn resolve_models_dir(env_dir: Option<String>, state: &ModelState, data_dir: Option<String>) -> (r:
    String)
    ensures
        env_dir matches Some(e) ==> r@ == e@,
        env_dir is None && portable_path(state.models_dir@) && join_part(state.models_dir@)
            && state.models_dir@[0] != '/' ==> (data_dir matches Some(d) ==> (join_base(d@)
            ==> is_join_of(r@, d@, seq!["nsay"@, state.models_dir@]))),
        env_dir is None && portable_path(state.models_dir@) && join_part(state.models_dir@)
            && state.models_dir@[0] != '/' ==> (data_dir is None ==> is_join_of(
            r@,
            "."@,
            seq!["nsay"@, state.models_dir@],
        )),
{
    let abs = path_is_absolute(state.models_dir.as_str());
    models_dir_from(env_dir, abs, state.models_dir.as_str(), data_dir)
}

// ---------------------------------------------------------------------
// The catalogue as installed here
// ---------------------------------------------------------------------

/// A listed model's family and native ratio agree: background removal,
/// upscaling or interpolation, with a ratio of 2 or 4 for upscalers and 0
/// otherwise.
pub open spec fn family_and_ratio_ok(family: Seq<char>, output_scale: u32) -> bool {
    &&& (family == "rembg"@ || family == "upscale"@ || family == "interp"@)
    &&& (family == "upscale"@ ==> (output_scale == 2 || output_scale == 4))
    &&& (family != "upscale"@ ==> output_scale == 0)
}

/// Every catalogue entry other than the video super-resolution one is an
/// image or interpolation model whose ratio fits its family.
pub proof fn lemma_catalogue_families(i: int)
    requires
        0 <= i < spec_catalog().len(),
        spec_catalog()[i].family@ != "vidsr"@,
    ensures
        family_and_ratio_ok(spec_catalog()[i].family@, spec_catalog()[i].output_scale),
{
    reveal_strlit("rembg");
    reveal_strlit("upscale");
    reveal_strlit("interp");
    reveal_strlit("vidsr");
    let f = spec_catalog()[i].family@;
    assert(f == "rembg"@ || f == "upscale"@ || f == "interp"@ || f == "vidsr"@);
    assert("rembg"@ != "upscale"@);
    assert("interp"@.len() != "upscale"@.len());
}

/// The catalogue with, for each entry, whether its file is in `dir`
/// (`installed[i]` for entry `i`), whether it is downloading, and the local
/// path of installed files.
pub fn list_models(dir: &str, in_flight: &Vec<String>, installed: &Vec<bool>) -> (r: Vec<ModelInfo>)
    requires
        installed@.len() == spec_catalog().len(),
    ensures
        r@.len() == spec_catalog().len(),
        forall|i: int|
            0 <= i < r@.len() ==> {
                let m = spec_catalog()[i];
                let info = #[trigger] r@[i];
                &&& info.id@ == m.id@
                &&& info.family@ == m.family@
                &&& info.label@ == m.label@
                &&& info.size_mb == m.size_mb
                &&& info.output_scale == m.output_scale
                &&& info.installed == installed@[i]
                &&& info.downloading == listed(in_flight@, m.id@)
                &&& (info.local_path is Some <==> installed@[i])
                &&& (info.local_path matches Some(lp) ==> (join_base(dir@) && join_part(m.filename@)
                    ==> is_join_of(lp@, dir@, seq![m.filename@])))
                &&& (info.family@ != "vidsr"@ ==> family_and_ratio_ok(info.family@, info.output_scale))
            },
{
    let cat = catalog();
    let mut out: Vec<ModelInfo> = Vec::new();
    let mut i: usize = 0;
    while i < cat.len()
        invariant
            cat@ == spec_catalog(),
            installed@.len() == spec_catalog().len(),
            i <= cat@.len(),
            out@.len() == i,
            forall|k: int|
                0 <= k < i ==> {
                    let m = spec_catalog()[k];
                    let info = #[trigger] out@[k];
                    &&& info.id@ == m.id@
                    &&& info.family@ == m.family@
                    &&& info.label@ == m.label@
                    &&& info.size_mb == m.size_mb
                    &&& info.output_scale == m.output_scale
                    &&& info.installed == installed@[k]
                    &&& info.downloading == listed(in_flight@, m.id@)
                    &&& (info.local_path is Some <==> installed@[k])
                    &&& (info.local_path matches Some(lp) ==> (join_base(dir@) && join_part(
                        m.filename@,
                    ) ==> is_join_of(lp@, dir@, seq![m.filename@])))
                    &&& (info.family@ != "vidsr"@ ==> family_and_ratio_ok(
                        info.family@,
                        info.output_scale,
                    ))
                },
        decreases cat@.len() - i,
    {
        let m = cat[i];
        let here = installed[i];
        let local_path = if here {
            let lp = path_join(dir, m.filename);
            proof {
                if join_base(dir@) && join_part(m.filename@) {
                    crate::paths::lemma_join_one(dir@, m.filename@, lp@);
                }
            }
            Some(lp)
        } else {
            None
        };
        let info = ModelInfo {
            id: String::from_str(m.id),
            family: String::from_str(m.family),
            label: String::from_str(m.label),
            size_mb: m.size_mb,
            installed: here,
            downloading: is_listed(in_flight, m.id),
            local_path,
            output_scale: m.output_scale,
        };
        proof {
            if m.family@ != "vidsr"@ {
                lemma_catalogue_families(i as int);
            }
        }
        out.push(info);
        i = i + 1;
    }
    out
}

// ---------------------------------------------------------------------
// Checking a download
// ---------------------------------------------------------------------

/// What becomes of a downloaded file, given the catalogue's sha256.
pub enum DigestVerdict {
    /// The entry has no digest: nothing to check.
    Unchecked,
    /// The file's digest is the catalogue's.
    Matches,
    /// The file's digest differs: the download is rejected.
    Mismatch,
    /// The entry has a digest but none could be computed here: the download
    /// is rejected rather than kept unchecked.
    Unverifiable,
}

/// The verdict on a downloaded file whose computed sha256 (lowercase hex)
/// is `actual`, `None` when it could not be computed: an empty `expected`
/// skips the check; otherwise the digests must agree (hex digits in either
/// case).
pub fn digest_verdict(expected: &str, actual: Option<&str>) -> (r: DigestVerdict)
    ensures
        expected@.len() == 0 <==> r is Unchecked,
        expected@.len() > 0 ==> match actual {
            None => r is Unverifiable,
            Some(a) => if eq_ignore_ascii_case(expected@, a@) {
                r is Matches
            } else {
                r is Mismatch
            },
        },
{
    if expected.unicode_len() == 0 {
        return DigestVerdict::Unchecked;
    }
    match actual {
        None => DigestVerdict::Unverifiable,
        Some(a) => if eq_ignore_case(expected, a) {
            DigestVerdict::Matches
        } else {
            DigestVerdict::Mismatch
        },
    }
}

// ---------------------------------------------------------------------
// Downloads in flight
// ---------------------------------------------------------------------

/// `s` without any occurrence of `id`, order kept.
pub open spec fn remove_all(s: Seq<Seq<char>>, id: Seq<char>) -> Seq<Seq<char>>
    decreases s.len(),
{
    if s.len() == 0 {
        seq![]
    } else if s.last() == id {
        remove_all(s.drop_last(), id)
    } else {
        remove_all(s.drop_last(), id).push(s.last())
    }
}

/// The message for an id the catalogue does not know.
pub open spec fn unknown_model_message(id: Seq<char>) -> Seq<char> {
    "unknown model id: "@ + id
}

/// The catalogue entry for `id`, or the message naming the unknown id.
pub fn lookup_model(id: &str) -> (r: Result<ModelEntry, String>)
    ensures
        spec_find(id@) matches Some(e) ==> r == Ok::<ModelEntry, String>(e),
        spec_find(id@) is None ==> (r matches Err(m) && m@ == unknown_model_message(id@)),
{
    match find(id) {
        Some(e) => Ok(e),
        None => Err(concat2("unknown model id: ", id)),
    }
}

impl ModelState {
    /// Mark `id` as downloading. Refused (with nothing changed) when it
    /// already is, so one model is never fetched twice at once.
    pub fn begin_download(&mut self, id: &str) -> (r: bool)
        ensures
            r == !listed(old(self).in_flight@, id@),
            r ==> views(final(self).in_flight@) == views(old(self).in_flight@).push(id@),
            !r ==> final(self).in_flight@ == old(self).in_flight@,
            final(self).models_dir == old(self).models_dir,
    {
        if is_listed(&self.in_flight, id) {
            return false;
        }
        self.in_flight.push(String::from_str(id));
        proof {
            assert(views(self.in_flight@) =~= views(old(self).in_flight@).push(id@));
        }
        true
    }

    /// The download of `id` is over (either way): forget every mark of it.
    pub fn end_download(&mut self, id: &str)
        ensures
            views(final(self).in_flight@) == remove_all(views(old(self).in_flight@), id@),
            final(self).models_dir == old(self).models_dir,
    {
        let mut kept: Vec<String> = Vec::new();
        let mut i: usize = 0;
        while i < self.in_flight.len()
            invariant
                i <= self.in_flight@.len(),
                self.in_flight@ == old(self).in_flight@,
                views(kept@) == remove_all(views(self.in_flight@.take(i as int)), id@),
            decreases self.in_flight@.len() - i,
        {
            proof {
                let t = self.in_flight@.take(i + 1);
                assert(views(t).drop_last() =~= views(self.in_flight@.take(i as int)));
                assert(views(t).last() == self.in_flight@[i as int]@);
            }
            if !str_eq(self.in_flight[i].as_str(), id) {
                let x = self.in_flight[i].clone();
                kept.push(x);
                proof {
                    assert(views(kept@) =~= remove_all(
                        views(self.in_flight@.take(i as int)),
                        id@,
                    ).push(self.in_flight@[i as int]@));
                }
            }
            i = i + 1;
        }
        proof {
            assert(self.in_flight@.take(i as int) =~= self.in_flight@);
        }
        self.in_flight = kept;
    }
}

proof fn lemma_remove_absent(s: Seq<Seq<char>>, id: Seq<char>)
    requires
        forall|k: int| 0 <= k < s.len() ==> s[k] != id,
    ensures
        remove_all(s, id) == s,
    decreases s.len(),
{
    if s.len() > 0 {
        lemma_remove_absent(s.drop_last(), id);
        assert(s.drop_last().push(s.last()) =~= s);
    }
}

/// A download that was started and then ended leaves the set of downloads
/// in flight as it was before: starting `id` when it was not in flight and
/// then ending it gives back the earlier list.
pub proof fn lemma_begin_end_restores(before: Seq<String>, id: Seq<char>)
    requires
        !listed(before, id),
    ensures
        remove_all(views(before).push(id), id) == views(before),
{
    assert forall|k: int| 0 <= k < views(before).len() implies views(before)[k] != id by {
        if views(before)[k] == id {
            assert(before[k]@ == id);
        }
    }
    lemma_remove_absent(views(before), id);
    assert(views(before).push(id).drop_last() =~= views(before));
}

/// After a download is ended, `id` is no longer in flight.
pub proof fn lemma_end_clears(s: Seq<Seq<char>>, id: Seq<char>)
    ensures
        forall|k: int| 0 <= k < remove_all(s, id).len() ==> remove_all(s, id)[k] != id,
    decreases s.len(),
{
    if s.len() > 0 {
        lemma_end_clears(s.drop_last(), id);
        let rest = remove_all(s.drop_last(), id);
        if s.last() != id {
            assert forall|k: int| 0 <= k < rest.push(s.last()).len() implies rest.push(
                s.last(),
            )[k] != id by {
                if k < rest.len() {
                    assert(rest.push(s.last())[k] == rest[k]);
                }
            }
        }
    }
}

// ---------------------------------------------------------------------
// Fetching a model on demand
// ---------------------------------------------------------------------

/// What to do to have a model on disk.
pub enum EnsureStep {
    /// The file is there already.
    Present(ModelEntry),
    /// Fetch it (the id is now marked in flight; end the download when it
    /// is over).
    Download(ModelEntry),
}

/// The message when a model is already being fetched.
pub open spec fn already_downloading_message(id: Seq<char>) -> Seq<char> {
    "model "@ + id + " is already downloading"@
}

/// The decisions of fetching model `id` on demand, given whether its file
/// is already in the models directory: an unknown id is refused; a
/// present file needs nothing; a download in flight is refused; otherwise
/// the id is marked in flight and must be fetched.
pub fn ensure_model(state: &mut ModelState, id: &str, dest_exists: bool) -> (r: Result<
    EnsureStep,
    String,
>)
    ensures
        match spec_find(id@) {
            None => r matches Err(m) && m@ == unknown_model_message(id@),
            Some(e) => if dest_exists {
                r matches Ok(EnsureStep::Present(x)) && x == e
            } else if listed(old(state).in_flight@, id@) {
                r matches Err(m) && m@ == already_downloading_message(id@)
            } else {
                r matches Ok(EnsureStep::Download(x)) && x == e
            },
        },
        r matches Ok(EnsureStep::Download(_)) ==> views(final(state).in_flight@) == views(
            old(state).in_flight@,
        ).push(id@),
        !(r matches Ok(EnsureStep::Download(_))) ==> final(state).in_flight@ == old(
            state,
        ).in_flight@,
        final(state).models_dir == old(state).models_dir,
{
    let entry = match lookup_model(id) {
        Ok(e) => e,
        Err(m) => {
            return Err(m);
        },
    };
    if dest_exists {
        return Ok(EnsureStep::Present(entry));
    }
    if !state.begin_download(id) {
        let a = concat2("model ", id);
        let mut m = a;
        m.append(" is already downloading");
        return Err(m);
    }
    Ok(EnsureStep::Download(entry))
}

/// The decisions of the settings screen's download button for `id`: as
/// `ensure_model`, but an id in flight is answered "already downloading".
pub fn download_model(state: &mut ModelState, id: &str, dest_exists: bool) -> (r: Result<
    EnsureStep,
    String,
>)
    ensures
        match spec_find(id@) {
            None => r matches Err(m) && m@ == unknown_model_message(id@),
            Some(e) => if dest_exists {
                r matches Ok(EnsureStep::Present(x)) && x == e
            } else if listed(old(state).in_flight@, id@) {
                r matches Err(m) && m@ == "already downloading"@
            } else {
                r matches Ok(EnsureStep::Download(x)) && x == e
            },
        },
        r matches Ok(EnsureStep::Download(_)) ==> views(final(state).in_flight@) == views(
            old(state).in_flight@,
        ).push(id@),
        !(r matches Ok(EnsureStep::Download(_))) ==> final(state).in_flight@ == old(
            state,
        ).in_flight@,
        final(state).models_dir == old(state).models_dir,
{
    let entry = match lookup_model(id) {
        Ok(e) => e,
        Err(m) => {
            return Err(m);
        },
    };
    if dest_exists {
        return Ok(EnsureStep::Present(entry));
    }
    if !state.begin_download(id) {
        return Err(String::from_str("already downloading"));
    }
    Ok(EnsureStep::Download(entry))
}

// ---------------------------------------------------------------------
// Download progress
// ---------------------------------------------------------------------

/// The `content-length` header's value as a byte count; 0 when absent or
/// not a number.
pub fn content_length(header: Option<String>) -> (r: u64)
    ensures
        r == match header {
            Some(h) => match parse_unsigned(h@, 0xffff_ffff_ffff_ffffnat) {
                Some(n) => n,
                None => 0,
            },
            None => 0nat,
        },
{
    match header {
        Some(h) => {
            let cs = to_chars(h.as_str());
            match parse_decimal(cs.as_slice(), 0xffff_ffff_ffff_ffff) {
                Some(n) => n,
                None => 0,
            }
        },
        None => 0,
    }
}

/// The percentage reported after `downloaded` of `total` bytes, as the
/// byte it is sent as (it wraps if the server sends more than it said).
pub open spec fn spec_download_pct(downloaded: nat, total: nat) -> nat {
    (downloaded * 100 / total) % 256
}

/// While no more than the announced length has arrived, the percentage
/// sent is the floor of `100 * downloaded / total`: `p * total <=
/// 100 * downloaded < (p + 1) * total`, at most 100, and 100 once all bytes
/// are in.
pub proof fn lemma_download_pct_exact(downloaded: nat, total: nat)
    requires
        0 < total,
        downloaded <= total,
    ensures
        spec_download_pct(downloaded, total) <= 100,
        spec_download_pct(downloaded, total) * total <= 100 * downloaded,
        100 * downloaded < (spec_download_pct(downloaded, total) + 1) * total,
        downloaded == total ==> spec_download_pct(downloaded, total) == 100,
{
    crate::text::lemma_div_bounds(downloaded * 100, total);
    let q = downloaded * 100 / total;
    assert(downloaded * 100 <= total * 100) by (nonlinear_arith)
        requires
            downloaded <= total,
    ;
    if q > 100 {
        assert(q * total >= 101 * total) by (nonlinear_arith)
            requires
                q >= 101,
        ;
    }
    assert(q % 256 == q);
    if downloaded == total {
        if q < 100 {
            assert((q + 1) * total <= 100 * total) by (nonlinear_arith)
                requires
                    q + 1 <= 100,
            ;
        }
    }
}

/// The progress event due after a chunk: the new percentage when the
/// length is known and the percentage moved since `last_pct`.
pub fn download_progress(downloaded: u64, total: u64, last_pct: u8) -> (r: Option<u8>)
    requires
        downloaded <= u64::MAX / 100,
    ensures
        total == 0 ==> r is None,
        total > 0 ==> (r is Some <==> spec_download_pct(downloaded as nat, total as nat)
            != last_pct),
        r matches Some(p) ==> p == spec_download_pct(downloaded as nat, total as nat),
{
    if total == 0 {
        return None;
    }
    let q: u64 = (downloaded * 100) / total;
    let pct: u8 = (q % 256) as u8;
    if pct != last_pct {
        Some(pct)
    } else {
        None
    }
}

} // verus!
