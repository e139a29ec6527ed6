//! Command-line scanning shared by the sidecars. Arguments are read left to
//! right; a known flag either stands alone or takes the next argument as
//! its value. Scanning stops at the first unknown argument or at a flag
//! whose value is missing; the flags read before that point are handed to
//! the sidecar's own parser, which reports value errors in argument order
//! before the scanning error.
use vstd::prelude::*;

use crate::text::str_eq;

verus! {

/// One recognised flag: its index in the flag table, where it stands in the
/// argument list, and its value when the flag takes one.
pub struct Token {
    pub flag: usize,
    pub at: usize,
    pub value: Option<String>,
}

pub struct TokenView {
    pub flag: int,
    pub at: int,
    pub value: Option<Seq<char>>,
}

impl Token {
    pub open spec fn view(&self) -> TokenView {
        TokenView {
            flag: self.flag as int,
            at: self.at as int,
            value: match self.value {
                Some(v) => Some(v@),
                None => None,
            },
        }
    }
}

/// Why scanning stopped early.
pub enum ScanError {
    /// An argument that is no known flag.
    Unknown { arg: String, at: usize },
    /// A value-taking flag at the end of the list.
    NeedsValue { flag: &'static str, at: usize },
}

pub enum ScanErrorView {
    Unknown { arg: Seq<char>, at: int },
    NeedsValue { flag: Seq<char>, at: int },
}

impl ScanError {
    pub open spec fn view(&self) -> ScanErrorView {
        match self {
            ScanError::Unknown { arg, at } => ScanErrorView::Unknown { arg: arg@, at: *at as int },
            ScanError::NeedsValue { flag, at } => ScanErrorView::NeedsValue {
                flag: flag@,
                at: *at as int,
            },
        }
    }
}

/// A flag table: each flag's spelling and whether it takes a value.
pub open spec fn table_view(table: Seq<(&'static str, bool)>) -> Seq<(Seq<char>, bool)> {
    Seq::new(table.len(), |i: int| (table[i].0@, table[i].1))
}

/// Index of the first table entry spelled `a`.
pub open spec fn flag_index(table: Seq<(Seq<char>, bool)>, a: Seq<char>, from: int) -> Option<int>
    decreases table.len() - from,
{
    if from < 0 || from >= table.len() {
        None
    } else if table[from].0 == a {
        Some(from)
    } else {
        flag_index(table, a, from + 1)
    }
}

proof fn lemma_flag_index_skip(table: Seq<(Seq<char>, bool)>, a: Seq<char>, i: int)
    requires
        0 <= i <= table.len(),
        forall|k: int| 0 <= k < i ==> table[k].0 != a,
    ensures
        flag_index(table, a, 0) == flag_index(table, a, i),
    decreases i,
{
    if i > 0 {
        lemma_flag_index_skip(table, a, i - 1);
    }
}

/// A flag spelled differently from every earlier entry is found at its
/// own index.
pub proof fn lemma_flag_at(table: Seq<(Seq<char>, bool)>, a: Seq<char>, k: int)
    requires
        0 <= k < table.len(),
        table[k].0 == a,
        forall|j: int| 0 <= j < k ==> table[j].0 != a,
    ensures
        flag_index(table, a, 0) == Some(k),
{
    lemma_flag_index_skip(table, a, k);
}

/// Two texts that differ at some position differ.
pub proof fn lemma_differ_at(a: Seq<char>, b: Seq<char>, i: int)
    requires
        0 <= i < a.len(),
        i < b.len(),
        a[i] != b[i],
    ensures
        a != b,
{
}

/// The tokens read from `args[i..]` and the error that stopped the scan,
/// if any.
pub open spec fn spec_scan(table: Seq<(Seq<char>, bool)>, args: Seq<Seq<char>>, i: int) -> (Seq<
    TokenView,
>, Option<ScanErrorView>)
    decreases args.len() - i,
{
    if i < 0 || i >= args.len() {
        (seq![], None)
    } else {
        match flag_index(table, args[i], 0) {
            None => (seq![], Some(ScanErrorView::Unknown { arg: args[i], at: i })),
            Some(f) => if 0 <= f < table.len() && table[f].1 {
                if i + 1 < args.len() {
                    let rest = spec_scan(table, args, i + 2);
                    (seq![TokenView { flag: f, at: i, value: Some(args[i + 1]) }] + rest.0, rest.1)
                } else {
                    (seq![], Some(ScanErrorView::NeedsValue { flag: table[f].0, at: i }))
                }
            } else {
                let rest = spec_scan(table, args, i + 1);
                (seq![TokenView { flag: f, at: i, value: None }] + rest.0, rest.1)
            },
        }
    }
}

pub open spec fn args_view(args: Seq<String>) -> Seq<Seq<char>> {
    Seq::new(args.len(), |i: int| args[i]@)
}

pub open spec fn tokens_view(toks: Seq<Token>) -> Seq<TokenView> {
    Seq::new(toks.len(), |i: int| toks[i].view())
}

fn lookup_flag(table: &Vec<(&'static str, bool)>, a: &str) -> (r: Option<usize>)
    ensures
        r matches Some(f) ==> flag_index(table_view(table@), a@, 0) == Some(f as int)
            && f < table@.len(),
        r is None ==> flag_index(table_view(table@), a@, 0) is None,
{
    let ghost tv = table_view(table@);
    let mut i: usize = 0;
    while i < table.len()
        invariant
            tv == table_view(table@),
            i <= table@.len(),
            forall|k: int| 0 <= k < i ==> tv[k].0 != a@,
        decreases table@.len() - i,
    {
        if str_eq(table[i].0, a) {
            proof {
                lemma_flag_index_skip(tv, a@, i as int);
            }
            return Some(i);
        }
        i = i + 1;
    }
    proof {
        lemma_flag_index_skip(tv, a@, i as int);
    }
    None
}

/// Scan `args` (program name excluded) against the flag table.
pub fn scan(table: &Vec<(&'static str, bool)>, args: &Vec<String>) -> (r: (
    Vec<Token>,
    Option<ScanError>,
))
    ensures
        tokens_view(r.0@) == spec_scan(table_view(table@), args_view(args@), 0).0,
        (match r.1 {
            Some(e) => Some(e.view()),
            None => None,
        }) == spec_scan(table_view(table@), args_view(args@), 0).1,
        forall|k: int| 0 <= k < r.0@.len() ==> #[trigger] r.0@[k].flag < table@.len(),
{
    let ghost tv = table_view(table@);
    let ghost av = args_view(args@);
    let mut toks: Vec<Token> = Vec::new();
    let mut i: usize = 0;
    while i < args.len()
        invariant
            tv == table_view(table@),
            av == args_view(args@),
            i <= args@.len() + 1,
            spec_scan(tv, av, 0).0 == tokens_view(toks@) + spec_scan(tv, av, i as int).0,
            spec_scan(tv, av, 0).1 == spec_scan(tv, av, i as int).1,
            forall|k: int| 0 <= k < toks@.len() ==> #[trigger] toks@[k].flag < table@.len(),
        decreases args@.len() + 1 - i,
    {
        let a = &args[i];
        assert(av[i as int] == a@);
        match lookup_flag(table, a.as_str()) {
            None => {
                proof {
                    assert(tokens_view(toks@) + Seq::<TokenView>::empty() =~= tokens_view(toks@));
                }
                return (toks, Some(ScanError::Unknown { arg: a.clone(), at: i }));
            },
            Some(f) => {
                if table[f].1 {
                    if i + 1 < args.len() {
                        let v = args[i + 1].clone();
                        assert(av[i + 1] == v@);
                        let ghost old_toks = toks@;
                        toks.push(Token { flag: f, at: i, value: Some(v) });
                        proof {
                            assert(tokens_view(toks@) =~= tokens_view(old_toks).push(
                                TokenView { flag: f as int, at: i as int, value: Some(v@) },
                            ));
                            assert(tokens_view(toks@) + spec_scan(tv, av, i + 2).0 =~= tokens_view(
                                old_toks,
                            ) + (seq![TokenView { flag: f as int, at: i as int, value: Some(v@) }]
                                + spec_scan(tv, av, i + 2).0));
                        }
                        i = i + 2;
                    } else {
                        proof {
                            assert(tokens_view(toks@) + Seq::<TokenView>::empty() =~= tokens_view(
                                toks@,
                            ));
                        }
                        return (toks, Some(ScanError::NeedsValue { flag: table[f].0, at: i }));
                    }
                } else {
                    let ghost old_toks = toks@;
                    toks.push(Token { flag: f, at: i, value: None });
                    proof {
                        assert(tokens_view(toks@) =~= tokens_view(old_toks).push(
                            TokenView { flag: f as int, at: i as int, value: None },
                        ));
                        assert(tokens_view(toks@) + spec_scan(tv, av, i + 1).0 =~= tokens_view(
                            old_toks,
                        ) + (seq![TokenView { flag: f as int, at: i as int, value: None }]
                            + spec_scan(tv, av, i + 1).0));
                    }
                    i = i + 1;
                }
            },
        }
    }
    proof {
        assert(tokens_view(toks@) + Seq::<TokenView>::empty() =~= tokens_view(toks@));
    }
    (toks, None)
}

/// Why a sidecar's command line was refused.
pub enum ArgError {
    /// An argument that is no known flag.
    Unknown { arg: String, at: usize },
    /// A value-taking flag at the end of the list.
    NeedsValue { flag: &'static str, at: usize },
    /// The value of `flag` is not a number of the flag's type.
    BadNumber { flag: &'static str, text: String, at: usize },
    /// A required flag is absent.
    Required { flag: &'static str },
    /// A numeric flag outside its allowed range.
    OutOfRange { flag: &'static str, value: u64 },
    /// `--stream` is mandatory for this sidecar.
    StreamRequired,
    /// `--width` and `--height` must both be non-zero.
    DimsRequired,
    /// File mode needs both `--input` and `--output`.
    FileModeNeedsPaths,
    /// `--mode` is neither "tiny" nor "full".
    BadMode { mode: String },
    /// No `--weights-dir` and no default location.
    NoWeightsDir,
    /// `--preset` names no known preset.
    UnknownPreset { name: String },
    /// The upscale factor (its text) is a number outside 1 to 4.
    ScaleOutOfRange { text: String },
}

pub enum ArgErrorView {
    Unknown { arg: Seq<char>, at: int },
    NeedsValue { flag: Seq<char>, at: int },
    BadNumber { flag: Seq<char>, text: Seq<char>, at: int },
    Required { flag: Seq<char> },
    OutOfRange { flag: Seq<char>, value: nat },
    StreamRequired,
    DimsRequired,
    FileModeNeedsPaths,
    BadMode { mode: Seq<char> },
    NoWeightsDir,
    UnknownPreset { name: Seq<char> },
    ScaleOutOfRange { text: Seq<char> },
}

impl ArgError {
    pub open spec fn view(&self) -> ArgErrorView {
        match self {
            ArgError::Unknown { arg, at } => ArgErrorView::Unknown { arg: arg@, at: *at as int },
            ArgError::NeedsValue { flag, at } => ArgErrorView::NeedsValue {
                flag: flag@,
                at: *at as int,
            },
            ArgError::BadNumber { flag, text, at } => ArgErrorView::BadNumber {
                flag: flag@,
                text: text@,
                at: *at as int,
            },
            ArgError::Required { flag } => ArgErrorView::Required { flag: flag@ },
            ArgError::OutOfRange { flag, value } => ArgErrorView::OutOfRange {
                flag: flag@,
                value: *value as nat,
            },
            ArgError::StreamRequired => ArgErrorView::StreamRequired,
            ArgError::DimsRequired => ArgErrorView::DimsRequired,
            ArgError::FileModeNeedsPaths => ArgErrorView::FileModeNeedsPaths,
            ArgError::BadMode { mode } => ArgErrorView::BadMode { mode: mode@ },
            ArgError::NoWeightsDir => ArgErrorView::NoWeightsDir,
            ArgError::UnknownPreset { name } => ArgErrorView::UnknownPreset { name: name@ },
            ArgError::ScaleOutOfRange { text } => ArgErrorView::ScaleOutOfRange { text: text@ },
        }
    }
}

pub open spec fn scan_error_view(e: ScanErrorView) -> ArgErrorView {
    match e {
        ScanErrorView::Unknown { arg, at } => ArgErrorView::Unknown { arg, at },
        ScanErrorView::NeedsValue { flag, at } => ArgErrorView::NeedsValue { flag, at },
    }
}

pub fn scan_error(e: ScanError) -> (r: ArgError)
    ensures
        r.view() == scan_error_view(e.view()),
{
    match e {
        ScanError::Unknown { arg, at } => ArgError::Unknown { arg, at },
        ScanError::NeedsValue { flag, at } => ArgError::NeedsValue { flag, at },
    }
}

/// `value` parsed as a `u32`, or the error naming `flag`.
pub open spec fn spec_u32_arg(flag: Seq<char>, value: Seq<char>, at: int) -> Result<nat, ArgErrorView> {
    match crate::text::parse_unsigned(value, 0xffff_ffff) {
        Some(v) => Ok(v),
        None => Err(ArgErrorView::BadNumber { flag, text: value, at }),
    }
}

pub fn u32_arg(flag: &'static str, value: &String, at: usize) -> (r: Result<u32, ArgError>)
    ensures
        r is Ok <==> spec_u32_arg(flag@, value@, at as int) is Ok,
        r matches Ok(v) ==> spec_u32_arg(flag@, value@, at as int) == Ok::<nat, ArgErrorView>(v as nat),
        r matches Err(e) ==> spec_u32_arg(flag@, value@, at as int) == Err::<nat, ArgErrorView>(e.view()),
{
    let cs = crate::text::to_chars(value.as_str());
    match crate::text::parse_decimal(cs.as_slice(), 0xffff_ffff) {
        Some(v) => Ok(v as u32),
        None => Err(ArgError::BadNumber { flag, text: value.clone(), at }),
    }
}

/// The value of a token that carries one (empty otherwise).
pub open spec fn token_value(t: TokenView) -> Seq<char> {
    match t.value {
        Some(v) => v,
        None => seq![],
    }
}

pub fn token_value_of(t: &Token) -> (r: String)
    ensures
        r@ == token_value(t.view()),
{
    match &t.value {
        Some(v) => v.clone(),
        None => String::new(),
    }
}

} // verus!
