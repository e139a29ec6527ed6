//! Background removal runs: where each output goes, the sidecar's command
//! line, its progress lines, and the tally of a batch.
//!
//! Output naming follows the user's intent: a lone file of a directory gets
//! `<stem>_rembg.png` next to the source; several files of one directory go
//! to `<dir>/nsay_rembg/<stem>.png`; each directory of a mixed batch is
//! treated on its own.
use vstd::prelude::*;

use crate::text::{concat2, parse_decimal, parse_unsigned, split_words, strip_prefix_chars, to_chars, has_prefix, words};
use crate::tools::{all_plain_files, batch_output_ok, batch_output_paths};

verus! {

/// The outcome of one input of a batch, in input order.
pub struct ItemResult {
    pub idx: usize,
    pub input: String,
    pub output: Option<String>,
    pub error: Option<String>,
}

// ---------------------------------------------------------------------
// Progress lines
// ---------------------------------------------------------------------

/// The stage and percentage read so far from the tokens of a line.
pub open spec fn progress_step(acc: (Option<Seq<char>>, Option<nat>), tok: Seq<char>) -> (
    Option<Seq<char>>,
    Option<nat>,
) {
    if has_prefix(tok, "stage="@) {
        (Some(tok.skip(6)), acc.1)
    } else if has_prefix(tok, "pct="@) {
        (acc.0, parse_unsigned(tok.skip(4), 255))
    } else {
        acc
    }
}

pub open spec fn progress_fold(toks: Seq<Seq<char>>) -> (Option<Seq<char>>, Option<nat>)
    decreases toks.len(),
{
    if toks.len() == 0 {
        (None, None)
    } else {
        progress_step(progress_fold(toks.drop_last()), toks.last())
    }
}

/// "stage=infer pct=42" gives ("infer", 42): the last `stage=` token and
/// the last `pct=` token of the line (a `pct=` that is not a byte value
/// clears the percentage); both must be there.
pub open spec fn spec_parse_progress(line: Seq<char>) -> Option<(Seq<char>, nat)> {
    match progress_fold(words(line)) {
        (Some(s), Some(p)) => Some((s, p)),
        _ => None,
    }
}

/// Read a sidecar progress line.
pub fn parse_progress(line: &str) -> (r: Option<(String, u8)>)
    ensures
        r is Some <==> spec_parse_progress(line@) is Some,
        r matches Some(x) ==> spec_parse_progress(line@) == Some((x.0@, x.1 as nat)),
{
    let cs = to_chars(line);
    let toks = split_words(cs.as_slice());
    let mut stage: Option<Vec<char>> = None;
    let mut pct: Option<u8> = None;
    let mut i: usize = 0;
    while i < toks.len()
        invariant
            i <= toks@.len(),
            toks@.len() == words(line@).len(),
            forall|k: int| 0 <= k < toks@.len() ==> #[trigger] toks@[k]@ == words(line@)[k],
            ({
                let f = progress_fold(words(line@).take(i as int));
                &&& f.0 == match stage {
                    Some(v) => Some(v@),
                    None => None,
                }
                &&& f.1 == match pct {
                    Some(p) => Some(p as nat),
                    None => None,
                }
            }),
        decreases toks@.len() - i,
    {
        proof {
            assert(words(line@).take(i + 1).drop_last() =~= words(line@).take(i as int));
        }
        let tok = toks[i].as_slice();
        match strip_prefix_chars(tok, "stage=") {
            Some(v) => {
                proof {
                    reveal_strlit("stage=");
                }
                stage = Some(v);
            },
            None => {
                match strip_prefix_chars(tok, "pct=") {
                    Some(v) => {
                        proof {
                            reveal_strlit("pct=");
                        }
                        match parse_decimal(v.as_slice(), 255) {
                            Some(n) => {
                                pct = Some(n as u8);
                            },
                            None => {
                                pct = None;
                            },
                        }
                    },
                    None => {},
                }
            },
        }
        i = i + 1;
    }
    proof {
        assert(words(line@).take(i as int) =~= words(line@));
    }
    match (stage, pct) {
        (Some(s), Some(p)) => {
            let st = crate::text::string_from_chars(s.as_slice());
            Some((st, p))
        },
        _ => None,
    }
}

// ---------------------------------------------------------------------
// Outputs and the sidecar's command line
// ---------------------------------------------------------------------

/// Output paths for a batch, in input order: `<dir>/<stem>_rembg.png` for a
/// lone input of its directory, `<dir>/nsay_rembg/<stem>.png` otherwise.
pub fn derive_output_paths(inputs: &Vec<String>) -> (r: Vec<String>)
    ensures
        r@.len() == inputs@.len(),
        all_plain_files(inputs@) ==> forall|i: int|
            0 <= i < r@.len() ==> batch_output_ok(
                #[trigger] r@[i]@,
                inputs@,
                i,
                "_rembg.png"@,
                "nsay_rembg"@,
            ),
{
    proof {
        reveal_strlit("_rembg.png");
        reveal_strlit("nsay_rembg");
    }
    batch_output_paths(inputs, "_rembg.png", "nsay_rembg")
}

/// The views of a list of strings.
pub open spec fn arg_views(v: Seq<String>) -> Seq<Seq<char>> {
    v.map_values(|x: String| x@)
}

/// The sidecar's command line for one image.
pub open spec fn spec_sidecar_args(
    model: Seq<char>,
    input: Seq<char>,
    output: Seq<char>,
    preset: Seq<char>,
    choke: Seq<char>,
) -> Seq<Seq<char>> {
    seq![
        "--model"@,
        model,
        "--input"@,
        input,
        "--output"@,
        output,
        "--preset"@,
        preset,
        "--choke"@,
        choke,
    ]
}

/// The sidecar's arguments for one image; `preset` is the catalogue
/// entry's preset, `choke` the choke amount as text (four decimals).
pub fn sidecar_args(model: &str, input: &str, output: &str, preset: &str, choke: &str) -> (r: Vec<
    String,
>)
    ensures
        arg_views(r@) == spec_sidecar_args(model@, input@, output@, preset@, choke@),
{
    let v = vec![
        String::from_str("--model"),
        String::from_str(model),
        String::from_str("--input"),
        String::from_str(input),
        String::from_str("--output"),
        String::from_str(output),
        String::from_str("--preset"),
        String::from_str(preset),
        String::from_str("--choke"),
        String::from_str(choke),
    ];
    assert(arg_views(v@) =~= spec_sidecar_args(model@, input@, output@, preset@, choke@));
    v
}

// ---------------------------------------------------------------------
// The tally of a batch
// ---------------------------------------------------------------------

/// What happened to one input.
pub enum ItemOutcome {
    /// The input file vanished before its turn.
    Missing,
    /// Its output directory could not be made: the directory and the
    /// system's message.
    DirFailed { dir: String, reason: String },
    /// The sidecar wrote this output.
    Done { output: String },
    /// The sidecar failed with this message.
    Failed { message: String },
}

/// The error an outcome is reported with, if it is one.
pub open spec fn outcome_error(input: Seq<char>, o: ItemOutcome) -> Option<Seq<char>> {
    match o {
        ItemOutcome::Missing => Some("input file not found: "@ + input),
        ItemOutcome::DirFailed { dir, reason } => Some(
            "failed to create output dir "@ + dir@ + ": "@ + reason@,
        ),
        ItemOutcome::Done { .. } => None,
        ItemOutcome::Failed { message } => Some(message@),
    }
}

/// `it` is the record of input `idx` (`input`) with outcome `o`.
pub open spec fn records(it: ItemResult, idx: nat, input: Seq<char>, o: ItemOutcome) -> bool {
    &&& it.idx == idx
    &&& it.input@ == input
    &&& match o {
        ItemOutcome::Done { output } => it.output matches Some(p) && p@ == output@ && it.error is None,
        _ => it.output is None && (it.error matches Some(e) && Some(e@) == outcome_error(input, o)),
    }
}

/// How many records of `rs` succeeded.
pub open spec fn ok_count(rs: Seq<ItemResult>) -> nat
    decreases rs.len(),
{
    if rs.len() == 0 {
        0
    } else {
        ok_count(rs.drop_last()) + if rs.last().output is Some {
            1nat
        } else {
            0nat
        }
    }
}

/// The results of a batch so far, with its counts of successes and
/// failures.
pub struct BatchReport {
    pub results: Vec<ItemResult>,
    pub ok: usize,
    pub failed: usize,
}

impl BatchReport {
    /// Records are numbered in order, each has an output or an error but
    /// not both, and the counts add up.
    pub open spec fn wf(&self) -> bool {
        &&& self.ok + self.failed == self.results@.len()
        &&& self.ok == ok_count(self.results@)
        &&& forall|i: int|
            0 <= i < self.results@.len() ==> {
                let it = #[trigger] self.results@[i];
                &&& it.idx == i
                &&& (it.output is Some <==> it.error is None)
            }
    }

    pub fn new() -> (r: BatchReport)
        ensures
            r.wf(),
            r.results@.len() == 0,
    {
        BatchReport { results: Vec::new(), ok: 0, failed: 0 }
    }

    /// Record the outcome of the next input.
    pub fn record(&mut self, input: &str, outcome: ItemOutcome)
        requires
            old(self).wf(),
            old(self).results@.len() < usize::MAX,
        ensures
            final(self).wf(),
            final(self).results@.len() == old(self).results@.len() + 1,
            final(self).results@.take(old(self).results@.len() as int) == old(self).results@,
            records(
                final(self).results@.last(),
                old(self).results@.len() as nat,
                input@,
                outcome,
            ),
    {
        let idx = self.results.len();
        let ghost o = outcome;
        let item = match outcome {
            ItemOutcome::Missing => ItemResult {
                idx,
                input: String::from_str(input),
                output: None,
                error: Some(concat2("input file not found: ", input)),
            },
            ItemOutcome::DirFailed { dir, reason } => {
                let mut m = concat2("failed to create output dir ", dir.as_str());
                m.append(": ");
                m.append(reason.as_str());
                ItemResult { idx, input: String::from_str(input), output: None, error: Some(m) }
            },
            ItemOutcome::Done { output } => ItemResult {
                idx,
                input: String::from_str(input),
                output: Some(output),
                error: None,
            },
            ItemOutcome::Failed { message } => ItemResult {
                idx,
                input: String::from_str(input),
                output: None,
                error: Some(message),
            },
        };
        let good = item.output.is_some();
        assert(records(item, idx as nat, input@, o));
        let ghost before = self.results@;
        self.results.push(item);
        proof {
            assert(self.results@.drop_last() =~= before);
            assert(self.results@.take(before.len() as int) =~= before);
        }
        if good {
            self.ok = self.ok + 1;
        } else {
            self.failed = self.failed + 1;
        }
    }
}

/// Every record of a batch is a success or a failure: at the end the two
/// counts add up to the number of inputs, and the successes are exactly
/// the records with an output.
pub proof fn lemma_batch_counts(b: BatchReport)
    requires
        b.wf(),
    ensures
        b.ok + b.failed == b.results@.len(),
        b.ok == ok_count(b.results@),
        b.ok <= b.results@.len(),
{
    lemma_ok_count_le(b.results@);
}

proof fn lemma_ok_count_le(rs: Seq<ItemResult>)
    ensures
        ok_count(rs) <= rs.len(),
    decreases rs.len(),
{
    if rs.len() > 0 {
        lemma_ok_count_le(rs.drop_last());
    }
}

} // verus!
