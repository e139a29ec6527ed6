//! Sidecar naming and selection. Each tool family ships one binary per
//! backend, named `nsay-<tool>-<backend>` (plus `.exe` on Windows), next to
//! the application executable.
use vstd::prelude::*;

use crate::models::{find, spec_find};
use crate::paths::{
    is_join_of, is_sep, join_part, lemma_join_of_base, lemma_join_one, lemma_join_step,
    lemma_plain_file_parts, no_colon, path_file_stem, path_join, path_parent, plain_file, plain_path,
    same_path, spec_parent, spec_stem,
};
use crate::text::{concat2, str_eq};

pub mod rembg;
pub mod upscale;
pub mod video;

verus! {

/// Backends in the order "auto" tries them.
pub open spec fn spec_backend_priority() -> Seq<Seq<char>> {
    seq!["cuda"@, "dml"@, "vulkan"@, "coreml"@, "cpu"@]
}

/// Tool families that ship sidecars.
pub open spec fn spec_tools() -> Seq<Seq<char>> {
    seq!["rembg"@, "upscale"@, "interp"@, "vidsr"@]
}

pub fn backend_priority() -> (v: Vec<&'static str>)
    ensures
        v@.len() == spec_backend_priority().len(),
        forall|i: int| 0 <= i < v@.len() ==> #[trigger] v@[i]@ == spec_backend_priority()[i],
{
    vec!["cuda", "dml", "vulkan", "coreml", "cpu"]
}

pub fn tools() -> (v: Vec<&'static str>)
    ensures
        v@.len() == spec_tools().len(),
        forall|i: int| 0 <= i < v@.len() ==> #[trigger] v@[i]@ == spec_tools()[i],
{
    vec!["rembg", "upscale", "interp", "vidsr"]
}

/// The file name of the sidecar for `tool` on `backend`.
pub open spec fn spec_sidecar_bin_name(tool: Seq<char>, backend: Seq<char>, windows: bool) -> Seq<
    char,
> {
    "nsay-"@ + tool + "-"@ + backend + (if windows {
        ".exe"@
    } else {
        Seq::empty()
    })
}

/// The file name of the sidecar for `tool` on `backend`; `windows` says
/// whether the build targets Windows.
pub fn sidecar_bin_name(tool: &str, backend: &str, windows: bool) -> (s: String)
    ensures
        s@ == spec_sidecar_bin_name(tool@, backend@, windows),
{
    let mut s = concat2("nsay-", tool);
    s.append("-");
    s.append(backend);
    if windows {
        s.append(".exe");
    } else {
        assert(s@ + Seq::<char>::empty() =~= s@);
    }
    s
}

/// `name` is one of the strings in `present`.
pub open spec fn listed(present: Seq<String>, name: Seq<char>) -> bool {
    exists|i: int| 0 <= i < present.len() && #[trigger] present[i]@ == name
}

pub fn is_listed(present: &Vec<String>, name: &str) -> (r: bool)
    ensures
        r == listed(present@, name@),
{
    let mut i: usize = 0;
    while i < present.len()
        invariant
            i <= present@.len(),
            forall|k: int| 0 <= k < i ==> present@[k]@ != name@,
        decreases present@.len() - i,
    {
        if str_eq(present[i].as_str(), name) {
            return true;
        }
        i = i + 1;
    }
    false
}

/// Some tool has a sidecar for `backend` among `present`.
pub open spec fn backend_available(present: Seq<String>, backend: Seq<char>, windows: bool) -> bool {
    exists|t: int|
        0 <= t < spec_tools().len() && listed(
            present,
            #[trigger] spec_sidecar_bin_name(spec_tools()[t], backend, windows),
        )
}

/// The backends of `spec_backend_priority()[from..]` that are available,
/// in priority order.
pub open spec fn available_from(present: Seq<String>, windows: bool, from: int) -> Seq<Seq<char>>
    decreases spec_backend_priority().len() - from,
{
    if from < 0 || from >= spec_backend_priority().len() {
        seq![]
    } else if backend_available(present, spec_backend_priority()[from], windows) {
        seq![spec_backend_priority()[from]] + available_from(present, windows, from + 1)
    } else {
        available_from(present, windows, from + 1)
    }
}

/// Backends (in priority order) for which at least one tool's sidecar is
/// among `present`, the file names found next to the executable.
pub fn available_backends_any(present: &Vec<String>, windows: bool) -> (r: Vec<String>)
    ensures
        r@.len() == available_from(present@, windows, 0).len(),
        forall|i: int|
            0 <= i < r@.len() ==> #[trigger] r@[i]@ == available_from(present@, windows, 0)[i],
{
    let prio = backend_priority();
    let tl = tools();
    let mut out: Vec<String> = Vec::new();
    let mut b: usize = 0;
    while b < prio.len()
        invariant
            prio@.len() == spec_backend_priority().len(),
            forall|i: int| 0 <= i < prio@.len() ==> #[trigger] prio@[i]@ == spec_backend_priority()[i],
            tl@.len() == spec_tools().len(),
            forall|i: int| 0 <= i < tl@.len() ==> #[trigger] tl@[i]@ == spec_tools()[i],
            b <= prio@.len(),
            available_from(present@, windows, 0).len() == out@.len() + available_from(
                present@,
                windows,
                b as int,
            ).len(),
            forall|i: int|
                0 <= i < out@.len() ==> #[trigger] out@[i]@ == available_from(present@, windows, 0)[i],
            forall|i: int|
                0 <= i < available_from(present@, windows, b as int).len() ==> available_from(
                    present@,
                    windows,
                    0,
                )[out@.len() + i] == #[trigger] available_from(present@, windows, b as int)[i],
        decreases prio@.len() - b,
    {
        let mut found = false;
        let mut t: usize = 0;
        while t < tl.len()
            invariant
                tl@.len() == spec_tools().len(),
                forall|i: int| 0 <= i < tl@.len() ==> #[trigger] tl@[i]@ == spec_tools()[i],
                b < prio@.len(),
                prio@[b as int]@ == spec_backend_priority()[b as int],
                t <= tl@.len(),
                found == (exists|k: int|
                    0 <= k < t && listed(
                        present@,
                        #[trigger] spec_sidecar_bin_name(
                            spec_tools()[k],
                            spec_backend_priority()[b as int],
                            windows,
                        ),
                    )),
            decreases tl@.len() - t,
        {
            let name = sidecar_bin_name(tl[t], prio[b], windows);
            if is_listed(present, name.as_str()) {
                found = true;
            }
            t = t + 1;
        }
        let ghost rest = available_from(present@, windows, b as int);
        if found {
            out.push(String::from_str(prio[b]));
            proof {
                assert(rest == seq![spec_backend_priority()[b as int]] + available_from(
                    present@,
                    windows,
                    b + 1,
                ));
                assert(rest[0] == spec_backend_priority()[b as int]);
                assert forall|i: int|
                    0 <= i < available_from(present@, windows, b + 1).len() implies available_from(
                    present@,
                    windows,
                    0,
                )[out@.len() + i] == #[trigger] available_from(present@, windows, b + 1)[i] by {
                    assert(rest[i + 1] == available_from(present@, windows, b + 1)[i]);
                }
            }
        } else {
            proof {
                assert(rest == available_from(present@, windows, b + 1));
            }
        }
        b = b + 1;
    }
    out
}

/// The sidecar picked for a tool: the backend name and the sidecar's file
/// name.
pub struct SidecarPick {
    pub backend: String,
    pub file_name: String,
}

/// Why no sidecar could be picked.
pub enum SidecarError {
    /// An explicit backend was chosen but its sidecar file is absent.
    Missing { backend: String, tool: String, file_name: String },
    /// "auto" found no sidecar for the tool; `tried` lists the file names
    /// looked for, in order.
    NoneFound { tool: String, tried: Vec<String> },
}

/// The first backend of `spec_backend_priority()[from..]` whose sidecar for
/// `tool` is present.
pub open spec fn first_present(present: Seq<String>, tool: Seq<char>, windows: bool, from: int) -> Option<
    int,
>
    decreases spec_backend_priority().len() - from,
{
    if from < 0 || from >= spec_backend_priority().len() {
        None
    } else if listed(present, spec_sidecar_bin_name(tool, spec_backend_priority()[from], windows)) {
        Some(from)
    } else {
        first_present(present, tool, windows, from + 1)
    }
}

/// The backend actually asked for: the `NSAY_BACKEND` override when set,
/// else the configured choice.
pub open spec fn effective_choice(choice: Seq<char>, env_backend: Option<String>) -> Seq<char> {
    match env_backend {
        Some(e) => e@,
        None => choice,
    }
}

/// Which sidecar `resolve_sidecar` picks.
pub open spec fn spec_resolve_sidecar(
    tool: Seq<char>,
    choice: Seq<char>,
    env_backend: Option<String>,
    present: Seq<String>,
    windows: bool,
) -> Option<(Seq<char>, Seq<char>)> {
    let eff = effective_choice(choice, env_backend);
    if eff != "auto"@ {
        if listed(present, spec_sidecar_bin_name(tool, eff, windows)) {
            Some((eff, spec_sidecar_bin_name(tool, eff, windows)))
        } else {
            None
        }
    } else {
        match first_present(present, tool, windows, 0) {
            Some(i) => Some(
                (
                    spec_backend_priority()[i],
                    spec_sidecar_bin_name(tool, spec_backend_priority()[i], windows),
                ),
            ),
            None => None,
        }
    }
}

proof fn lemma_first_present_skip(present: Seq<String>, tool: Seq<char>, windows: bool, i: int)
    requires
        0 <= i <= spec_backend_priority().len(),
        forall|k: int|
            0 <= k < i ==> !listed(
                present,
                #[trigger] spec_sidecar_bin_name(tool, spec_backend_priority()[k], windows),
            ),
    ensures
        first_present(present, tool, windows, 0) == first_present(present, tool, windows, i),
    decreases i,
{
    if i > 0 {
        lemma_first_present_skip(present, tool, windows, i - 1);
    }
}

/// Pick the sidecar for `tool`. `env_backend` is the `NSAY_BACKEND`
/// override, `choice` the configured backend ("auto" walks the priority
/// list), `present` the file names found next to the executable.
pub fn resolve_sidecar(
    tool: &str,
    choice: &str,
    env_backend: Option<String>,
    present: &Vec<String>,
    windows: bool,
) -> (r: Result<SidecarPick, SidecarError>)
    ensures
        r is Ok <==> spec_resolve_sidecar(tool@, choice@, env_backend, present@, windows) is Some,
        r matches Ok(p) ==> spec_resolve_sidecar(tool@, choice@, env_backend, present@, windows)
            == Some((p.backend@, p.file_name@)),
        r matches Err(SidecarError::Missing { backend, tool: t, file_name }) ==> {
            &&& effective_choice(choice@, env_backend) != "auto"@
            &&& backend@ == effective_choice(choice@, env_backend)
            &&& t@ == tool@
            &&& file_name@ == spec_sidecar_bin_name(tool@, backend@, windows)
        },
        r matches Err(SidecarError::NoneFound { tool: t, tried }) ==> {
            &&& effective_choice(choice@, env_backend) == "auto"@
            &&& t@ == tool@
            &&& tried@.len() == spec_backend_priority().len()
            &&& forall|i: int|
                0 <= i < tried@.len() ==> #[trigger] tried@[i]@ == spec_sidecar_bin_name(
                    tool@,
                    spec_backend_priority()[i],
                    windows,
                )
        },
{
    let ghost env_copy = env_backend;
    let effective = match env_backend {
        Some(e) => e,
        None => String::from_str(choice),
    };
    assert(effective@ == effective_choice(choice@, env_copy));
    if !str_eq(effective.as_str(), "auto") {
        let name = sidecar_bin_name(tool, effective.as_str(), windows);
        if !is_listed(present, name.as_str()) {
            return Err(
                SidecarError::Missing {
                    backend: effective,
                    tool: String::from_str(tool),
                    file_name: name,
                },
            );
        }
        return Ok(SidecarPick { backend: effective, file_name: name });
    }
    let prio = backend_priority();
    let mut tried: Vec<String> = Vec::new();
    let mut b: usize = 0;
    while b < prio.len()
        invariant
            prio@.len() == spec_backend_priority().len(),
            forall|i: int| 0 <= i < prio@.len() ==> #[trigger] prio@[i]@ == spec_backend_priority()[i],
            effective_choice(choice@, env_copy) == "auto"@,
            env_copy == env_backend,
            b <= prio@.len(),
            tried@.len() == b,
            forall|i: int|
                0 <= i < b ==> #[trigger] tried@[i]@ == spec_sidecar_bin_name(
                    tool@,
                    spec_backend_priority()[i],
                    windows,
                ),
            forall|k: int|
                0 <= k < b ==> !listed(
                    present@,
                    #[trigger] spec_sidecar_bin_name(tool@, spec_backend_priority()[k], windows),
                ),
        decreases prio@.len() - b,
    {
        let name = sidecar_bin_name(tool, prio[b], windows);
        if is_listed(present, name.as_str()) {
            proof {
                lemma_first_present_skip(present@, tool@, windows, b as int);
            }
            return Ok(SidecarPick { backend: String::from_str(prio[b]), file_name: name });
        }
        tried.push(name);
        b = b + 1;
    }
    proof {
        lemma_first_present_skip(present@, tool@, windows, b as int);
    }
    Err(SidecarError::NoneFound { tool: String::from_str(tool), tried })
}


/// "auto" never picks the container backend: it only walks the priority
/// list, which does not hold "docker"; using it takes an explicit choice.
pub proof fn lemma_auto_never_docker(
    tool: Seq<char>,
    choice: Seq<char>,
    env_backend: Option<String>,
    present: Seq<String>,
    windows: bool,
)
    requires
        effective_choice(choice, env_backend) == "auto"@,
    ensures
        spec_resolve_sidecar(tool, choice, env_backend, present, windows) matches Some(p) ==> p.0
            != "docker"@,
{
    reveal_strlit("docker");
    reveal_strlit("cuda");
    reveal_strlit("dml");
    reveal_strlit("vulkan");
    reveal_strlit("coreml");
    reveal_strlit("cpu");
    reveal_strlit("auto");
    if let Some(i) = first_present(present, tool, windows, 0) {
        lemma_first_present_range(present, tool, windows, 0);
        let b = spec_backend_priority()[i];
        if b.len() == "docker"@.len() {
            assert(b[0] != "docker"@[0]);
        }
        assert(b != "docker"@);
    }
}

proof fn lemma_first_present_range(present: Seq<String>, tool: Seq<char>, windows: bool, from: int)
    ensures
        first_present(present, tool, windows, from) matches Some(i) ==> from <= i
            < spec_backend_priority().len(),
    decreases spec_backend_priority().len() - from,
{
    if 0 <= from < spec_backend_priority().len() {
        lemma_first_present_range(present, tool, windows, from + 1);
    }
}

/// `available_from` holds every available backend of the priority list
/// from `from` on.
proof fn lemma_available_from_has(present: Seq<String>, windows: bool, from: int, i: int)
    requires
        0 <= from <= i < spec_backend_priority().len(),
        backend_available(present, spec_backend_priority()[i], windows),
    ensures
        available_from(present, windows, from).contains(spec_backend_priority()[i]),
    decreases i - from,
{
    if from == i {
        assert(available_from(present, windows, from)[0] == spec_backend_priority()[i]);
    } else {
        lemma_available_from_has(present, windows, from + 1, i);
        let rest = available_from(present, windows, from + 1);
        let j = choose|j: int| 0 <= j < rest.len() && rest[j] == spec_backend_priority()[i];
        if backend_available(present, spec_backend_priority()[from], windows) {
            let all = seq![spec_backend_priority()[from]] + rest;
            assert(all[j + 1] == rest[j]);
        }
    }
}

/// What "auto" picks for a tool is among the backends the settings show as
/// available: the sidecar it found is one of that tool's.
pub proof fn lemma_auto_pick_is_available(
    tool: Seq<char>,
    choice: Seq<char>,
    env_backend: Option<String>,
    present: Seq<String>,
    windows: bool,
)
    requires
        spec_tools().contains(tool),
        effective_choice(choice, env_backend) == "auto"@,
    ensures
        spec_resolve_sidecar(tool, choice, env_backend, present, windows) matches Some(p)
            ==> available_from(present, windows, 0).contains(p.0),
{
    if let Some(i) = first_present(present, tool, windows, 0) {
        lemma_first_present_range(present, tool, windows, 0);
        lemma_first_present_listed(present, tool, windows, 0);
        let t = choose|t: int| 0 <= t < spec_tools().len() && spec_tools()[t] == tool;
        assert(listed(present, spec_sidecar_bin_name(spec_tools()[t], spec_backend_priority()[i], windows)));
        assert(backend_available(present, spec_backend_priority()[i], windows));
        lemma_available_from_has(present, windows, 0, i);
    }
}

proof fn lemma_first_present_listed(present: Seq<String>, tool: Seq<char>, windows: bool, from: int)
    ensures
        first_present(present, tool, windows, from) matches Some(i) ==> listed(
            present,
            spec_sidecar_bin_name(tool, spec_backend_priority()[i], windows),
        ),
    decreases spec_backend_priority().len() - from,
{
    if 0 <= from < spec_backend_priority().len() {
        lemma_first_present_listed(present, tool, windows, from + 1);
    }
}

// ---------------------------------------------------------------------
// Which model a run uses
// ---------------------------------------------------------------------

/// The model a run uses: the per-call override when given and non-empty,
/// else the configured model when non-empty, else the tool's default.
pub open spec fn spec_select_model(
    model_override: Option<Seq<char>>,
    configured: Seq<char>,
    fallback: Seq<char>,
) -> Seq<char> {
    match model_override {
        Some(m) if m.len() > 0 => m,
        _ => if configured.len() > 0 {
            configured
        } else {
            fallback
        },
    }
}

pub fn select_model_id(model_override: Option<String>, configured: &str, fallback: &str) -> (r:
    String)
    ensures
        r@ == spec_select_model(
            match model_override {
                Some(m) => Some(m@),
                None => None,
            },
            configured@,
            fallback@,
        ),
{
    match model_override {
        Some(m) => {
            if m.unicode_len() > 0 {
                return m;
            }
        },
        None => {},
    }
    if configured.unicode_len() > 0 {
        String::from_str(configured)
    } else {
        String::from_str(fallback)
    }
}

/// The native output:input ratio of an upscale model: its catalogue
/// value when positive, else 4.
pub open spec fn spec_native_scale(model_id: Seq<char>) -> nat {
    match spec_find(model_id) {
        Some(e) if e.output_scale > 0 => e.output_scale as nat,
        _ => 4,
    }
}

pub fn native_scale(model_id: &str) -> (r: u32)
    ensures
        r == spec_native_scale(model_id@),
{
    match find(model_id) {
        Some(e) => {
            if e.output_scale > 0 {
                e.output_scale
            } else {
                4
            }
        },
        None => 4,
    }
}

// ---------------------------------------------------------------------
// Where batch outputs go
// ---------------------------------------------------------------------

/// How many of `keys[..upto]` equal `k`.
pub open spec fn count_key(keys: Seq<usize>, k: usize, upto: int) -> nat
    decreases upto,
{
    if upto <= 0 || upto > keys.len() {
        0
    } else {
        count_key(keys, k, upto - 1) + if keys[upto - 1] == k {
            1nat
        } else {
            0nat
        }
    }
}

/// How many inputs share group `k`.
pub open spec fn group_size(keys: Seq<usize>, k: usize) -> nat {
    count_key(keys, k, keys.len() as int)
}

/// Where one output goes: its directory is `parent` (inside the batch
/// sub-folder when `grouped`), its file name `file`.
pub struct OutputSlot {
    pub parent: String,
    pub grouped: bool,
    pub file: String,
}

/// The output's file name: `<stem><single_suffix>` for a lone input, or
/// `<stem>.png` inside the sub-folder for a group.
pub open spec fn spec_slot_file(stem: Seq<char>, grouped: bool, single_suffix: Seq<char>) -> Seq<
    char,
> {
    if grouped {
        stem + ".png"@
    } else {
        stem + single_suffix
    }
}

fn count_of(keys: &Vec<usize>, k: usize) -> (r: usize)
    ensures
        r == group_size(keys@, k),
{
    let mut c: usize = 0;
    let mut j: usize = 0;
    while j < keys.len()
        invariant
            j <= keys@.len(),
            c == count_key(keys@, k, j as int),
            c <= j,
        decreases keys@.len() - j,
    {
        if keys[j] == k {
            c = c + 1;
        }
        j = j + 1;
    }
    c
}

/// The naming rule of a batch, per parent directory: a directory holding a
/// single input of the batch gets `<stem><single_suffix>` next to the
/// source; a directory holding several gets `<stem>.png` in a sub-folder.
/// `keys[i]` identifies the directory of input `i` (inputs with the same
/// directory have the same key), `parents[i]` is that directory and
/// `stems[i]` the input's file stem. Outputs come in input order.
pub fn plan_outputs(
    keys: &Vec<usize>,
    parents: &Vec<String>,
    stems: &Vec<String>,
    single_suffix: &str,
) -> (r: Vec<OutputSlot>)
    requires
        parents@.len() == keys@.len(),
        stems@.len() == keys@.len(),
    ensures
        r@.len() == keys@.len(),
        forall|i: int|
            0 <= i < r@.len() ==> {
                let slot = #[trigger] r@[i];
                &&& slot.parent@ == parents@[i]@
                &&& slot.grouped == (group_size(keys@, keys@[i]) > 1)
                &&& slot.file@ == spec_slot_file(stems@[i]@, slot.grouped, single_suffix@)
            },
{
    let mut out: Vec<OutputSlot> = Vec::new();
    let mut i: usize = 0;
    while i < keys.len()
        invariant
            parents@.len() == keys@.len(),
            stems@.len() == keys@.len(),
            i <= keys@.len(),
            out@.len() == i,
            forall|k: int|
                0 <= k < i ==> {
                    let slot = #[trigger] out@[k];
                    &&& slot.parent@ == parents@[k]@
                    &&& slot.grouped == (group_size(keys@, keys@[k]) > 1)
                    &&& slot.file@ == spec_slot_file(stems@[k]@, slot.grouped, single_suffix@)
                },
        decreases keys@.len() - i,
    {
        let n = count_of(keys, keys[i]);
        let grouped = n > 1;
        let file = if grouped {
            concat2(stems[i].as_str(), ".png")
        } else {
            concat2(stems[i].as_str(), single_suffix)
        };
        out.push(OutputSlot { parent: parents[i].clone(), grouped, file });
        i = i + 1;
    }
    out
}

proof fn lemma_count_pos(keys: Seq<usize>, k: usize, upto: int, j: int)
    requires
        0 <= j < upto <= keys.len(),
        keys[j] == k,
    ensures
        count_key(keys, k, upto) >= 1,
    decreases upto,
{
    if j < upto - 1 {
        lemma_count_pos(keys, k, upto - 1, j);
    }
}

proof fn lemma_count_two(keys: Seq<usize>, k: usize, upto: int, i: int, j: int)
    requires
        0 <= i < j < upto <= keys.len(),
        keys[i] == k,
        keys[j] == k,
    ensures
        count_key(keys, k, upto) >= 2,
    decreases upto,
{
    if j < upto - 1 {
        lemma_count_two(keys, k, upto - 1, i, j);
    } else {
        lemma_count_pos(keys, k, upto - 1, i);
    }
}

proof fn lemma_count_only(keys: Seq<usize>, k: usize, upto: int, i: int)
    requires
        0 <= i < upto <= keys.len(),
        keys[i] == k,
        forall|j: int| 0 <= j < upto && j != i ==> keys[j] != k,
    ensures
        count_key(keys, k, upto) == 1,
    decreases upto,
{
    if i < upto - 1 {
        lemma_count_only(keys, k, upto - 1, i);
    } else {
        lemma_count_zero(keys, k, upto - 1);
    }
}

proof fn lemma_count_zero(keys: Seq<usize>, k: usize, upto: int)
    requires
        0 <= upto <= keys.len(),
        forall|j: int| 0 <= j < upto ==> keys[j] != k,
    ensures
        count_key(keys, k, upto) == 0,
    decreases upto,
{
    if upto > 0 {
        lemma_count_zero(keys, k, upto - 1);
    }
}

/// An input goes into its directory's sub-folder exactly when another
/// input of the batch shares its directory; inputs of one directory are
/// all treated alike.
pub proof fn lemma_grouped_iff_sibling(keys: Seq<usize>, i: int)
    requires
        0 <= i < keys.len(),
    ensures
        group_size(keys, keys[i]) > 1 <==> exists|j: int|
            0 <= j < keys.len() && j != i && #[trigger] keys[j] == keys[i],
        forall|j: int|
            0 <= j < keys.len() && #[trigger] keys[j] == keys[i] ==> group_size(keys, keys[j])
                == group_size(keys, keys[i]),
{
    let n = keys.len() as int;
    if exists|j: int| 0 <= j < n && j != i && #[trigger] keys[j] == keys[i] {
        let j = choose|j: int| 0 <= j < n && j != i && #[trigger] keys[j] == keys[i];
        if i < j {
            lemma_count_two(keys, keys[i], n, i, j);
        } else {
            lemma_count_two(keys, keys[i], n, j, i);
        }
    } else {
        lemma_count_only(keys, keys[i], n, i);
    }
}

/// The directory of an input, `.` when it has none.
pub fn parent_or_dot(p: Option<String>) -> (r: String)
    ensures
        r@ == match p {
            Some(x) => x@,
            None => "."@,
        },
{
    match p {
        Some(x) => x,
        None => String::from_str("."),
    }
}

/// The file stem of an input, `output` when it has none.
pub fn stem_or_default(p: Option<String>) -> (r: String)
    ensures
        r@ == match p {
            Some(x) => x@,
            None => "output"@,
        },
{
    match p {
        Some(x) => x,
        None => String::from_str("output"),
    }
}

/// The views of a list of strings.
pub open spec fn str_views(v: Seq<String>) -> Seq<Seq<char>> {
    v.map_values(|x: String| x@)
}

/// Every text of `ps` is a plain path.
pub open spec fn all_plain(ps: Seq<Seq<char>>) -> bool {
    forall|k: int| 0 <= k < ps.len() ==> plain_path(#[trigger] ps[k])
}

/// `key` is the first index at which `ps` holds the same text as at `i`.
pub open spec fn first_same(ps: Seq<Seq<char>>, i: int, key: int) -> bool {
    &&& 0 <= key <= i
    &&& ps[key] == ps[i]
    &&& forall|j: int| 0 <= j < key ==> #[trigger] ps[j] != ps[i]
}

/// Group keys for a batch: for each input, the index of the first input
/// whose directory is the same path. Path equality follows the platform's
/// rules; for plain paths it is equality of the texts, and the key of
/// input `i` is then the first index holding the same text.
pub fn directory_keys(parents: &Vec<String>) -> (r: Vec<usize>)
    ensures
        r@.len() == parents@.len(),
        forall|i: int| 0 <= i < r@.len() ==> #[trigger] r@[i] <= i,
        all_plain(str_views(parents@)) ==> forall|i: int|
            0 <= i < r@.len() ==> first_same(str_views(parents@), i, #[trigger] r@[i] as int),
{
    let ghost ps = str_views(parents@);
    let mut keys: Vec<usize> = Vec::new();
    let mut i: usize = 0;
    while i < parents.len()
        invariant
            ps == str_views(parents@),
            i <= parents@.len(),
            keys@.len() == i,
            forall|k: int| 0 <= k < i ==> #[trigger] keys@[k] <= k,
            all_plain(ps) ==> forall|k: int|
                0 <= k < i ==> first_same(ps, k, #[trigger] keys@[k] as int),
        decreases parents@.len() - i,
    {
        let mut j: usize = 0;
        while j < i
            invariant
                ps == str_views(parents@),
                j <= i,
                i < parents@.len(),
                all_plain(ps) ==> forall|m: int| 0 <= m < j ==> #[trigger] ps[m] != ps[i as int],
            ensures
                j <= i,
                all_plain(ps) ==> forall|m: int| 0 <= m < j ==> #[trigger] ps[m] != ps[i as int],
                all_plain(ps) && j < i ==> ps[j as int] == ps[i as int],
            decreases i - j,
        {
            if same_path(parents[j].as_str(), parents[i].as_str()) {
                proof {
                    if all_plain(ps) {
                        assert(plain_path(ps[j as int]));
                        assert(plain_path(ps[i as int]));
                    }
                }
                break;
            }
            proof {
                if all_plain(ps) {
                    assert(plain_path(ps[j as int]));
                    assert(plain_path(ps[i as int]));
                }
            }
            j = j + 1;
        }
        keys.push(j);
        i = i + 1;
    }
    keys
}

/// Two inputs share a key exactly when their directories are the same
/// text, when each key is the first index of its text.
proof fn lemma_keys_group(keys: Seq<usize>, ps: Seq<Seq<char>>, a: int, b: int)
    requires
        keys.len() == ps.len(),
        forall|i: int| 0 <= i < keys.len() ==> first_same(ps, i, #[trigger] keys[i] as int),
        0 <= a < keys.len(),
        0 <= b < keys.len(),
    ensures
        keys[a] == keys[b] <==> ps[a] == ps[b],
{
    assert(first_same(ps, a, keys[a] as int));
    assert(first_same(ps, b, keys[b] as int));
    if ps[a] == ps[b] {
        if keys[a] < keys[b] {
            assert(ps[keys[a] as int] != ps[b]);
        } else if keys[b] < keys[a] {
            assert(ps[keys[b] as int] != ps[a]);
        }
    }
}

/// Every input of the batch is a plain file path.
pub open spec fn all_plain_files(inputs: Seq<String>) -> bool {
    forall|k: int| 0 <= k < inputs.len() ==> plain_file(#[trigger] inputs[k]@)
}

/// Another input of the batch is in the same directory as input `i`.
pub open spec fn has_sibling(inputs: Seq<String>, i: int) -> bool {
    exists|j: int|
        0 <= j < inputs.len() && j != i && #[trigger] spec_parent(inputs[j]@) == spec_parent(
            inputs[i]@,
        )
}

/// A suffix that keeps a file name appended as it is.
pub open spec fn join_suffix(s: Seq<char>) -> bool {
    no_colon(s) && s.len() > 0 && s.last() != '\\'
}

/// Output `r` of input `i`: `<dir>/<stem><single_suffix>` when the input is
/// alone in its directory, `<dir>/<subdir>/<stem>.png` otherwise.
pub open spec fn batch_output_ok(
    r: Seq<char>,
    inputs: Seq<String>,
    i: int,
    single_suffix: Seq<char>,
    subdir: Seq<char>,
) -> bool {
    let dir = spec_parent(inputs[i]@);
    let stem = spec_stem(inputs[i]@);
    if has_sibling(inputs, i) {
        is_join_of(r, dir, seq![subdir, stem + ".png"@])
    } else {
        is_join_of(r, dir, seq![stem + single_suffix])
    }
}

proof fn lemma_file_part(stem: Seq<char>, suffix: Seq<char>)
    requires
        stem.len() > 0,
        no_colon(stem),
        !is_sep(stem[0]),
        join_suffix(suffix),
    ensures
        join_part(stem + suffix),
{
    let f = stem + suffix;
    assert(f[0] == stem[0]);
    assert(f.last() == suffix.last());
    assert forall|i: int| 0 <= i < f.len() implies f[i] != ':' by {
        if i >= stem.len() {
            assert(f[i] == suffix[i - stem.len()]);
        }
    }
}

/// Output paths of a batch, in input order: each input's directory and
/// stem are taken with the platform's path rules, then `plan_outputs`
/// decides, and the parts are joined (`subdir` is the batch sub-folder).
/// For plain inputs each output is stated exactly (`batch_output_ok`).
pub fn batch_output_paths(inputs: &Vec<String>, single_suffix: &str, subdir: &str) -> (r: Vec<
    String,
>)
    ensures
        r@.len() == inputs@.len(),
        all_plain_files(inputs@) && join_part(subdir@) && join_suffix(single_suffix@) ==> forall|
            i: int,
        |
            0 <= i < r@.len() ==> batch_output_ok(
                #[trigger] r@[i]@,
                inputs@,
                i,
                single_suffix@,
                subdir@,
            ),
{
    let ghost good = all_plain_files(inputs@) && join_part(subdir@) && join_suffix(single_suffix@);
    let mut parents: Vec<String> = Vec::new();
    let mut stems: Vec<String> = Vec::new();
    let mut i: usize = 0;
    while i < inputs.len()
        invariant
            i <= inputs@.len(),
            parents@.len() == i,
            stems@.len() == i,
            forall|k: int|
                0 <= k < i && plain_file(inputs@[k]@) ==> #[trigger] parents@[k]@ == spec_parent(
                    inputs@[k]@,
                ) && stems@[k]@ == spec_stem(inputs@[k]@),
        decreases inputs@.len() - i,
    {
        let par = parent_or_dot(path_parent(inputs[i].as_str()));
        let st = stem_or_default(path_file_stem(inputs[i].as_str()));
        proof {
            if plain_file(inputs@[i as int]@) {
                assert(par@ == spec_parent(inputs@[i as int]@));
                assert(st@ == spec_stem(inputs@[i as int]@));
            }
        }
        parents.push(par);
        stems.push(st);
        i = i + 1;
    }
    let ghost ps = str_views(parents@);
    proof {
        if good {
            assert forall|k: int| 0 <= k < ps.len() implies plain_path(#[trigger] ps[k]) by {
                assert(plain_file(inputs@[k]@));
                assert(parents@[k]@ == spec_parent(inputs@[k]@));
                lemma_plain_file_parts(inputs@[k]@);
            }
        }
    }
    let keys = directory_keys(&parents);
    let slots = plan_outputs(&keys, &parents, &stems, single_suffix);
    proof {
        if good {
            assert forall|k: int| 0 <= k < inputs@.len() implies (group_size(keys@, keys@[k]) > 1
                <==> has_sibling(inputs@, k)) by {
                lemma_grouped_iff_sibling(keys@, k);
                if has_sibling(inputs@, k) {
                    let j = choose|j: int|
                        0 <= j < inputs@.len() && j != k && #[trigger] spec_parent(inputs@[j]@)
                            == spec_parent(inputs@[k]@);
                    assert(plain_file(inputs@[j]@));
                    assert(plain_file(inputs@[k]@));
                    assert(parents@[j]@ == spec_parent(inputs@[j]@));
                    assert(parents@[k]@ == spec_parent(inputs@[k]@));
                    lemma_keys_group(keys@, ps, j, k);
                    assert(keys@[j] == keys@[k]);
                }
                if group_size(keys@, keys@[k]) > 1 {
                    let j = choose|j: int|
                        0 <= j < keys@.len() && j != k && #[trigger] keys@[j] == keys@[k];
                    lemma_keys_group(keys@, ps, j, k);
                    assert(plain_file(inputs@[j]@));
                    assert(plain_file(inputs@[k]@));
                    assert(parents@[j]@ == spec_parent(inputs@[j]@));
                    assert(parents@[k]@ == spec_parent(inputs@[k]@));
                    assert(spec_parent(inputs@[j]@) == spec_parent(inputs@[k]@));
                }
            }
        }
    }
    let mut out: Vec<String> = Vec::new();
    let mut k: usize = 0;
    while k < slots.len()
        invariant
            k <= slots@.len(),
            slots@.len() == inputs@.len(),
            keys@.len() == inputs@.len(),
            parents@.len() == inputs@.len(),
            stems@.len() == inputs@.len(),
            out@.len() == k,
            good == (all_plain_files(inputs@) && join_part(subdir@) && join_suffix(
                single_suffix@,
            )),
            forall|m: int|
                0 <= m < inputs@.len() && plain_file(inputs@[m]@) ==> #[trigger] parents@[m]@
                    == spec_parent(inputs@[m]@) && stems@[m]@ == spec_stem(inputs@[m]@),
            forall|m: int|
                0 <= m < slots@.len() ==> {
                    let slot = #[trigger] slots@[m];
                    &&& slot.parent@ == parents@[m]@
                    &&& slot.grouped == (group_size(keys@, keys@[m]) > 1)
                    &&& slot.file@ == spec_slot_file(stems@[m]@, slot.grouped, single_suffix@)
                },
            good ==> forall|m: int|
                0 <= m < inputs@.len() ==> (group_size(keys@, #[trigger] keys@[m]) > 1
                    <==> has_sibling(inputs@, m)),
            good ==> forall|m: int|
                0 <= m < k ==> batch_output_ok(
                    #[trigger] out@[m]@,
                    inputs@,
                    m,
                    single_suffix@,
                    subdir@,
                ),
        decreases slots@.len() - k,
    {
        let slot = &slots[k];
        let ghost input = inputs@[k as int]@;
        proof {
            if good {
                assert(plain_file(input));
                assert(parents@[k as int]@ == spec_parent(input));
                lemma_plain_file_parts(input);
                reveal_strlit(".png");
                lemma_file_part(spec_stem(input), ".png"@);
                lemma_file_part(spec_stem(input), single_suffix@);
                assert(group_size(keys@, keys@[k as int]) > 1 <==> has_sibling(inputs@, k as int));
            }
        }
        let p = if slot.grouped {
            let d = path_join(slot.parent.as_str(), subdir);
            proof {
                if good {
                    lemma_join_one(spec_parent(input), subdir@, d@);
                    lemma_join_of_base(d@, spec_parent(input), seq![subdir@]);
                }
            }
            let q = path_join(d.as_str(), slot.file.as_str());
            proof {
                if good {
                    lemma_join_step(d@, spec_parent(input), seq![subdir@], slot.file@, q@);
                    assert(seq![subdir@].push(slot.file@) =~= seq![subdir@, spec_stem(input) + ".png"@]);
                }
            }
            q
        } else {
            let q = path_join(slot.parent.as_str(), slot.file.as_str());
            proof {
                if good {
                    lemma_join_one(spec_parent(input), slot.file@, q@);
                }
            }
            q
        };
        out.push(p);
        k = k + 1;
    }
    out
}

} // verus!
