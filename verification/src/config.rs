//! Configuration in one place: the command-line arguments as tale reads
//! them, the options derived from them, and the glob handling of file
//! arguments.

use vstd::prelude::*;

use crate::defaults::{PresetSettings, SystemDefaults};
use crate::errors::{FileError, TaleError};
use crate::text::{chars_of, spec_parse_i64, string_of, parse_i64};

verus! {

/// The command-line arguments, as the option parser hands them over.
pub struct Args {
    pub follow: bool,
    pub sticky: bool,
    pub blocks: Option<i64>,
    pub bytes: Option<i64>,
    pub offset: Option<i64>,
    pub verbose: bool,
    pub quiet: bool,
    pub timestamps: bool,
    pub window: u64,
    pub chunked: bool,
    pub no_chunked: bool,
    pub max_memory: Option<usize>,
    pub profile_json: bool,
    pub args: Vec<String>,
}

/// The unit of an offset.
#[derive(PartialEq, Eq, Structural, Clone, Copy, Debug)]
pub enum OffsetUnit {
    Lines,
    Blocks,
    Bytes,
}

impl Default for OffsetUnit {
    fn default() -> (u: Self)
        ensures
            u == OffsetUnit::Lines,
    {
        OffsetUnit::Lines
    }
}

/// Operation modes for tale.
#[derive(Debug)]
pub enum InputMode {
    /// Read from stdin.
    Stdin,
    /// Read from a single file.
    SingleFile { path: String },
    /// Watch multiple files.
    MultiFile { paths: Vec<String> },
}

impl Default for InputMode {
    fn default() -> (m: Self)
        ensures
            m@ == ModeView::Stdin,
    {
        InputMode::Stdin
    }
}

/// The contents of an input mode: the path, or the list of paths.
pub enum ModeView {
    Stdin,
    SingleFile(Seq<char>),
    MultiFile(Seq<Seq<char>>),
}

impl View for InputMode {
    type V = ModeView;

    open spec fn view(&self) -> ModeView {
        match self {
            InputMode::Stdin => ModeView::Stdin,
            InputMode::SingleFile { path } => ModeView::SingleFile(path@),
            InputMode::MultiFile { paths } => ModeView::MultiFile(views(paths@)),
        }
    }
}

impl InputMode {
    /// A copy of this mode.
    pub fn duplicate(&self) -> (m: InputMode)
        ensures
            m@ == self@,
    {
        match self {
            InputMode::Stdin => InputMode::Stdin,
            InputMode::SingleFile { path } => InputMode::SingleFile { path: path.clone() },
            InputMode::MultiFile { paths } => {
                let copy = paths.clone();
                assert(views(copy@) =~= views(paths@));
                InputMode::MultiFile { paths: copy }
            },
        }
    }
}

/// A sensible holder for our configuration.
#[derive(Debug)]
pub struct ConfigOpts {
    pub tailing: bool,
    pub sticky: bool,
    pub offset: i64,
    pub offset_unit: OffsetUnit,
    pub show_time: bool,
    pub batch_window_ms: u64,
    pub mode: InputMode,
    pub force_chunked: bool,
    pub disable_chunked: bool,
    pub no_file_names: bool,
    pub all_file_names: bool,
    pub max_memory: Option<usize>,
    pub profile_json: bool,
}

impl Default for ConfigOpts {
    fn default() -> (c: Self)
        ensures
            !c.tailing && !c.sticky && c.offset == 0 && c.offset_unit == OffsetUnit::Lines && !c.show_time
                && c.batch_window_ms == 0 && c.mode@ == ModeView::Stdin && !c.force_chunked && !c.disable_chunked
                && !c.no_file_names && !c.all_file_names && c.max_memory is None && !c.profile_json,
    {
        ConfigOpts {
            tailing: false,
            sticky: false,
            offset: 0,
            offset_unit: OffsetUnit::Lines,
            show_time: false,
            batch_window_ms: 0,
            mode: InputMode::Stdin,
            force_chunked: false,
            disable_chunked: false,
            no_file_names: false,
            all_file_names: false,
            max_memory: None,
            profile_json: false,
        }
    }
}

/// Get the configuration held in `slot`; it must have been set.
pub fn config(slot: &Option<ConfigOpts>) -> (c: &ConfigOpts)
    requires
        slot is Some,
    ensures
        *c == slot->0,
{
    slot.as_ref().unwrap()
}

/// Set the configuration, once: a second setting is refused and hands the
/// new value back.
pub fn set(slot: &mut Option<ConfigOpts>, input: ConfigOpts) -> (r: Result<(), Box<ConfigOpts>>)
    ensures
        match *old(slot) {
            None => r is Ok && *final(slot) == Some(input),
            Some(_) => r matches Err(b) && *b == input && *final(slot) == *old(slot),
        },
{
    if slot.is_none() {
        *slot = Some(input);
        Ok(())
    } else {
        Err(Box::new(input))
    }
}

pub fn tailing(cfg: &ConfigOpts) -> (r: bool)
    ensures
        r == cfg.tailing,
{
    cfg.tailing
}

pub fn sticky(cfg: &ConfigOpts) -> (r: bool)
    ensures
        r == cfg.sticky,
{
    cfg.sticky
}

pub fn offset(cfg: &ConfigOpts) -> (r: i64)
    ensures
        r == cfg.offset,
{
    cfg.offset
}

pub fn offset_unit(cfg: &ConfigOpts) -> (r: OffsetUnit)
    ensures
        r == cfg.offset_unit,
{
    cfg.offset_unit
}

pub fn show_time(cfg: &ConfigOpts) -> (r: bool)
    ensures
        r == cfg.show_time,
{
    cfg.show_time
}

pub fn batch_window_ms(cfg: &ConfigOpts) -> (r: u64)
    ensures
        r == cfg.batch_window_ms,
{
    cfg.batch_window_ms
}

pub fn force_chunked(cfg: &ConfigOpts) -> (r: bool)
    ensures
        r == cfg.force_chunked,
{
    cfg.force_chunked
}

pub fn disable_chunked(cfg: &ConfigOpts) -> (r: bool)
    ensures
        r == cfg.disable_chunked,
{
    cfg.disable_chunked
}

pub fn mode(cfg: &ConfigOpts) -> (r: InputMode)
    ensures
        r@ == cfg.mode@,
{
    cfg.mode.duplicate()
}

/// The characters that make a pattern a glob.
pub open spec fn is_glob_meta(c: char) -> bool {
    c == '*' || c == '?' || c == '[' || c == ']' || c == '{' || c == '}'
}

/// Shell-unescaping of glob patterns: a backslash before a glob
/// metacharacter is dropped; every other backslash stays.
pub open spec fn spec_unescape_glob(s: Seq<char>) -> Seq<char>
    decreases s.len(),
{
    if s.len() == 0 {
        Seq::empty()
    } else if s[0] == '\\' && s.len() > 1 && is_glob_meta(s[1]) {
        seq![s[1]] + spec_unescape_glob(s.skip(2))
    } else {
        seq![s[0]] + spec_unescape_glob(s.skip(1))
    }
}

/// Unescape shell-escaped glob patterns (e.g., \* -> *, \? -> ?, \[ -> [).
pub fn unescape_glob_pattern(pattern: &str) -> (r: String)
    ensures
        r@ == spec_unescape_glob(pattern@),
{
    let c = chars_of(pattern);
    let mut out: Vec<char> = Vec::new();
    let mut i: usize = 0;
    assert(c@.skip(0) =~= c@);
    assert(out@ + c@ =~= c@);
    while i < c.len()
        invariant
            i <= c.len(),
            c@ == pattern@,
            spec_unescape_glob(c@) == out@ + spec_unescape_glob(c@.skip(i as int)),
        decreases c.len() - i,
    {
        let ghost rest = c@.skip(i as int);
        let ch = c[i];
        if ch == '\\' && i + 1 < c.len() && (c[i + 1] == '*' || c[i + 1] == '?' || c[i + 1] == '[' || c[i + 1]
            == ']' || c[i + 1] == '{' || c[i + 1] == '}') {
            out.push(c[i + 1]);
            proof {
                assert(rest.skip(2) =~= c@.skip(i + 2));
                assert(rest[0] == ch && rest[1] == c@[i + 1]);
            }
            i = i + 2;
        } else {
            out.push(ch);
            proof {
                assert(rest.skip(1) =~= c@.skip(i + 1));
                assert(rest[0] == ch);
            }
            i = i + 1;
        }
    }
    proof {
        assert(c@.skip(i as int) =~= Seq::<char>::empty());
        assert(out@ + Seq::<char>::empty() =~= out@);
    }
    string_of(out.as_slice())
}

/// Whether a string holds glob syntax, unescaped or shell-escaped. An
/// escaped metacharacter still contains the metacharacter itself, so this
/// is whether any of `?`, `*`, `[` or `{` occurs.
pub open spec fn spec_is_glob(s: Seq<char>) -> bool {
    exists|i: int| 0 <= i < s.len() && (s[i] == '?' || s[i] == '*' || s[i] == '[' || s[i] == '{')
}

/// Check if a string contains glob patterns, including shell-escaped ones.
pub fn is_glob(maybe: &str) -> (r: bool)
    ensures
        r == spec_is_glob(maybe@),
{
    let c = chars_of(maybe);
    let mut i: usize = 0;
    while i < c.len()
        invariant
            i <= c.len(),
            c@ == maybe@,
            forall|k: int| 0 <= k < i ==> !(c@[k] == '?' || c@[k] == '*' || c@[k] == '[' || c@[k] == '{'),
        decreases c.len() - i,
    {
        if c[i] == '?' || c[i] == '*' || c[i] == '[' || c[i] == '{' {
            return true;
        }
        i = i + 1;
    }
    false
}

/// How the positional arguments are read.
#[derive(PartialEq, Eq, Structural, Clone, Copy, Debug)]
pub enum ArgPlan {
    /// Read stdin, maybe with an offset given as the only argument.
    Stdin { offset: Option<i64> },
    /// Read the file named by the argument at `path_index`, maybe with an
    /// offset given as the first argument.
    SingleFile { path_index: usize, offset: Option<i64> },
    /// The arguments are paths or globs to expand into many files.
    Expand,
}

/// Whether a single argument is a signed number like `-4` or `+4`.
pub open spec fn spec_is_signed_offset(a: Seq<char>) -> bool {
    a.len() > 1 && (a[0] == '-' || a[0] == '+') && spec_parse_i64(a) is Some
}

/// How the positional arguments are read: none is stdin; a lone signed
/// number is an offset on stdin; a lone glob is many files; any other lone
/// argument is one file; a number and a name are an offset and one file;
/// everything else is a list of paths or globs.
pub open spec fn spec_arg_plan(args: Seq<Seq<char>>) -> ArgPlan {
    if args.len() == 0 {
        ArgPlan::Stdin { offset: None }
    } else if args.len() == 1 {
        if spec_is_signed_offset(args[0]) {
            ArgPlan::Stdin { offset: spec_parse_i64(args[0]) }
        } else if spec_is_glob(args[0]) {
            ArgPlan::Expand
        } else {
            ArgPlan::SingleFile { path_index: 0, offset: None }
        }
    } else if args.len() == 2 && spec_parse_i64(args[0]) is Some {
        ArgPlan::SingleFile { path_index: 1, offset: spec_parse_i64(args[0]) }
    } else {
        ArgPlan::Expand
    }
}

/// The views of a list of strings.
pub open spec fn views(v: Seq<String>) -> Seq<Seq<char>> {
    v.map_values(|s: String| s@)
}

/// Decide how the positional arguments are read.
pub fn plan_args(args: &Vec<String>) -> (p: ArgPlan)
    ensures
        p == spec_arg_plan(views(args@)),
{
    let n = args.len();
    if n == 0 {
        ArgPlan::Stdin { offset: None }
    } else if n == 1 {
        let only = chars_of(args[0].as_str());
        let parsed = parse_i64(args[0].as_str());
        assert(views(args@)[0] == args@[0]@);
        if only.len() > 1 && (only[0] == '-' || only[0] == '+') && parsed.is_some() {
            ArgPlan::Stdin { offset: parsed }
        } else if is_glob(args[0].as_str()) {
            ArgPlan::Expand
        } else {
            ArgPlan::SingleFile { path_index: 0, offset: None }
        }
    } else {
        let parsed = parse_i64(args[0].as_str());
        assert(views(args@)[0] == args@[0]@);
        if n == 2 && parsed.is_some() {
            ArgPlan::SingleFile { path_index: 1, offset: parsed }
        } else {
            ArgPlan::Expand
        }
    }
}

/// The arguments to hand to glob expansion, when the arguments name many
/// files; `None` when they name stdin or one file.
pub fn paths_to_expand(args: &Args) -> (r: Option<Vec<String>>)
    ensures
        match spec_arg_plan(views(args.args@)) {
            ArgPlan::Expand => r matches Some(v) && v@ == args.args@,
            _ => r is None,
        },
{
    match plan_args(&args.args) {
        ArgPlan::Expand => {
            let v = args.args.clone();
            assert(v@ =~= args.args@);
            Some(v)
        },
        _ => None,
    }
}

/// The patterns of a failed expansion, quoted and comma-separated.
pub open spec fn spec_quoted_list(args: Seq<Seq<char>>) -> Seq<char>
    decreases args.len(),
{
    if args.len() == 0 {
        Seq::empty()
    } else if args.len() == 1 {
        "'"@ + args[0] + "'"@
    } else {
        spec_quoted_list(args.drop_last()) + ", "@ + "'"@ + args.last() + "'"@
    }
}

/// The suggestions attached when no file matched.
pub open spec fn spec_no_match_suggestions() -> Seq<Seq<char>> {
    seq![
        "Check if the glob pattern is correct"@,
        "Verify the files exist in the specified directory"@,
        "Try using an absolute path"@,
    ]
}

/// Whether `r` is the error for arguments that matched no file.
pub open spec fn is_no_match_error(r: TaleError, args: Seq<Seq<char>>) -> bool {
    r matches TaleError::File(f) && *f matches FileError::NotFound { path, similar_files }
        && path@ == spec_quoted_list(args) && views(similar_files@) == spec_no_match_suggestions()
}

/// What the expansion of the arguments leads to: its error, the no-match
/// error when it found nothing, or the paths it found.
pub open spec fn spec_handle_paths(args: Seq<Seq<char>>, expanded: Result<Vec<String>, TaleError>, r: Result<Vec<String>, TaleError>) -> bool {
    match expanded {
        Err(e) => r == Err::<Vec<String>, TaleError>(e),
        Ok(paths) => if paths.len() == 0 {
            r matches Err(e) && is_no_match_error(e, args)
        } else {
            r == Ok::<Vec<String>, TaleError>(paths)
        },
    }
}

/// What the answer of an expansion leads to; no answer counts as an
/// expansion that found no file.
pub open spec fn spec_expand_outcome(args: Seq<Seq<char>>, expanded: Option<Result<Vec<String>, TaleError>>, r: Result<Vec<String>, TaleError>) -> bool {
    match expanded {
        Some(e) => spec_handle_paths(args, e, r),
        None => r matches Err(e) && is_no_match_error(e, args),
    }
}

fn quoted_list(args: &Vec<String>) -> (s: String)
    ensures
        s@ == spec_quoted_list(views(args@)),
{
    let mut out: Vec<char> = Vec::new();
    let mut i: usize = 0;
    while i < args.len()
        invariant
            i <= args.len(),
            out@ == spec_quoted_list(views(args@).take(i as int)),
        decreases args.len() - i,
    {
        let ghost before = out@;
        if i > 0 {
            let mut sep = chars_of(", ");
            out.append(&mut sep);
        }
        let mut q1 = chars_of("'");
        let mut body = chars_of(args[i].as_str());
        let mut q2 = chars_of("'");
        out.append(&mut q1);
        out.append(&mut body);
        out.append(&mut q2);
        proof {
            let t = views(args@).take(i + 1);
            assert(t.drop_last() =~= views(args@).take(i as int));
            assert(t.last() == args@[i as int]@);
            if i == 0 {
                assert(out@ =~= "'"@ + t[0] + "'"@);
            } else {
                assert(out@ =~= before + ", "@ + "'"@ + t.last() + "'"@);
            }
        }
        i = i + 1;
    }
    assert(views(args@).take(args.len() as int) =~= views(args@));
    string_of(out.as_slice())
}

/// Turns the result of expanding the arguments into the list of files, or
/// the error that says why there is none.
pub fn handle_possible_paths(args: &Vec<String>, expanded: Result<Vec<String>, TaleError>) -> (r: Result<
    Vec<String>,
    TaleError,
>)
    ensures
        spec_handle_paths(views(args@), expanded, r),
{
    match expanded {
        Ok(paths) => {
            if paths.len() == 0 {
                let path = quoted_list(args);
                let mut similar_files: Vec<String> = Vec::new();
                similar_files.push("Check if the glob pattern is correct".to_owned());
                similar_files.push("Verify the files exist in the specified directory".to_owned());
                similar_files.push("Try using an absolute path".to_owned());
                assert(views(similar_files@) =~= spec_no_match_suggestions());
                Err(TaleError::File(Box::new(FileError::NotFound { path, similar_files })))
            } else {
                Ok(paths)
            }
        },
        Err(e) => Err(e),
    }
}

/// The offset and its unit: bytes, then lines, then an offset given among
/// the positional arguments, then none. A block count is accepted for
/// `tail` compatibility but ignored.
pub open spec fn spec_offset_and_unit(args: Args, maybe_offset: Option<i64>) -> (i64, OffsetUnit) {
    if args.bytes is Some {
        (args.bytes->0, OffsetUnit::Bytes)
    } else if args.offset is Some {
        (args.offset->0, OffsetUnit::Lines)
    } else if maybe_offset is Some {
        (maybe_offset->0, OffsetUnit::Lines)
    } else {
        (0, OffsetUnit::Lines)
    }
}

/// The memory budget: the one given, or the preset's share of physical
/// memory kept within the budget bounds, or the preset's maximum when the
/// physical memory is unknown.
pub open spec fn spec_max_memory(args: Args, system_config: PresetSettings, physical_mem: Option<usize>) -> int {
    match args.max_memory {
        Some(m) => m as int,
        None => match physical_mem {
            Some(p) => {
                let share = p as int * system_config.memory_percentage as int / 100;
                if share < SystemDefaults::MIN_MEMORY_BUDGET {
                    SystemDefaults::MIN_MEMORY_BUDGET as int
                } else if share > SystemDefaults::MAX_MEMORY_BUDGET {
                    SystemDefaults::MAX_MEMORY_BUDGET as int
                } else {
                    share
                }
            },
            None => system_config.max_memory_mb * 1024 * 1024,
        },
    }
}

/// The options for arguments read in `mode` with `maybe_offset`.
pub open spec fn spec_config_for(
    args: Args,
    mode: ModeView,
    maybe_offset: Option<i64>,
    system_config: PresetSettings,
    physical_mem: Option<usize>,
    c: ConfigOpts,
) -> bool {
    let ou = spec_offset_and_unit(args, maybe_offset);
    &&& c.tailing == (args.follow || args.sticky)
    &&& c.sticky == args.sticky
    &&& c.offset == ou.0
    &&& c.offset_unit == ou.1
    &&& c.show_time == args.timestamps
    &&& c.batch_window_ms == args.window
    &&& c.mode@ == mode
    &&& c.force_chunked == (args.chunked || (!args.no_chunked && system_config.force_chunked))
    &&& c.disable_chunked == args.no_chunked
    &&& c.no_file_names == args.quiet
    &&& c.all_file_names == args.verbose
    &&& c.max_memory == Some(spec_max_memory(args, system_config, physical_mem) as usize)
    &&& c.profile_json == args.profile_json
}

impl ConfigOpts {
    /// The options for the given arguments. `expanded` is what expanding
    /// the arguments gave when `paths_to_expand` asked for it (no answer
    /// counts as no file found); `system_config` is the preset in force and
    /// `physical_mem` the machine's memory size, when known.
    pub fn new(
        args: &Args,
        expanded: Option<Result<Vec<String>, TaleError>>,
        system_config: &PresetSettings,
        physical_mem: Option<usize>,
    ) -> (r: Result<Self, TaleError>)
        requires
            args.max_memory is Some || physical_mem is Some || system_config.max_memory_mb * 1048576 <= usize::MAX,
        ensures
            match spec_arg_plan(views(args.args@)) {
                ArgPlan::Stdin { offset } => r matches Ok(c) && spec_config_for(
                    *args,
                    ModeView::Stdin,
                    offset,
                    *system_config,
                    physical_mem,
                    c,
                ),
                ArgPlan::SingleFile { path_index, offset } => r matches Ok(c) && spec_config_for(
                    *args,
                    ModeView::SingleFile(args.args@[path_index as int]@),
                    offset,
                    *system_config,
                    physical_mem,
                    c,
                ),
                ArgPlan::Expand => {
                    exists|h: Result<Vec<String>, TaleError>|
                        #![trigger spec_expand_outcome(views(args.args@), expanded, h)]
                        spec_expand_outcome(views(args.args@), expanded, h) && match h {
                            Ok(paths) => r matches Ok(c) && spec_config_for(
                                *args,
                                ModeView::MultiFile(views(paths@)),
                                None,
                                *system_config,
                                physical_mem,
                                c,
                            ),
                            Err(e) => r == Err::<ConfigOpts, TaleError>(e),
                        }
                },
            },
    {
        let plan = plan_args(&args.args);
        let ghost expanded_in = expanded;
        let ghost mut witness: Result<Vec<String>, TaleError> = arbitrary();
        let (mode, maybe_offset) = match plan {
            ArgPlan::Stdin { offset } => (InputMode::Stdin, offset),
            ArgPlan::SingleFile { path_index, offset } => (
                InputMode::SingleFile { path: args.args[path_index].clone() },
                offset,
            ),
            ArgPlan::Expand => {
                let given = match expanded {
                    Some(e) => e,
                    None => Ok(Vec::new()),
                };
                let handled = handle_possible_paths(&args.args, given);
                proof {
                    witness = handled;
                    assert(spec_expand_outcome(views(args.args@), expanded_in, witness));
                }
                match handled {
                    Ok(paths) => (InputMode::MultiFile { paths }, None),
                    Err(e) => {
                        return Err(e);
                    },
                }
            },
        };
        let (offset, offset_unit) = if let Some(bytes) = args.bytes {
            (bytes, OffsetUnit::Bytes)
        } else if let Some(lines) = args.offset {
            (lines, OffsetUnit::Lines)
        } else if let Some(o) = maybe_offset {
            (o, OffsetUnit::Lines)
        } else {
            (0, OffsetUnit::Lines)
        };
        let max_memory: usize = match args.max_memory {
            Some(m) => m,
            None => match physical_mem {
                Some(p) => {
                    let pw = p as u128;
                    let pct = system_config.memory_percentage as u128;
                    assert(pw * pct <= u128::MAX) by (nonlinear_arith)
                        requires
                            pw <= u64::MAX,
                            pct <= u64::MAX,
                    ;
                    let share: u128 = pw * pct / 100;
                    if share < SystemDefaults::MIN_MEMORY_BUDGET as u128 {
                        SystemDefaults::MIN_MEMORY_BUDGET
                    } else if share > SystemDefaults::MAX_MEMORY_BUDGET as u128 {
                        SystemDefaults::MAX_MEMORY_BUDGET
                    } else {
                        share as usize
                    }
                },
                None => system_config.max_memory_mb * 1024 * 1024,
            },
        };
        let force_chunked = if args.chunked {
            true
        } else if args.no_chunked {
            false
        } else {
            system_config.force_chunked
        };
        let c = ConfigOpts {
            tailing: args.follow || args.sticky,
            sticky: args.sticky,
            offset,
            offset_unit,
            show_time: args.timestamps,
            batch_window_ms: args.window,
            mode,
            force_chunked,
            disable_chunked: args.no_chunked,
            no_file_names: args.quiet,
            all_file_names: args.verbose,
            max_memory: Some(max_memory),
            profile_json: args.profile_json,
        };
        proof {
            assert(spec_config_for(*args, c.mode@, maybe_offset, *system_config, physical_mem, c));
            if plan == ArgPlan::Expand {
                assert(spec_expand_outcome(views(args.args@), expanded_in, witness));
            }
        }
        Ok(c)
    }
}

} // verus!

verus! {

/// Two positional arguments whose first reads as an integer `N` are an
/// offset and a file: the second names the one file shown, and `N` is the
/// offset, counted in lines unless `-c` or `-n` gives one.
pub proof fn law_offset_and_file(args: Args, n: i64)
    requires
        views(args.args@).len() == 2,
        spec_parse_i64(views(args.args@)[0]) == Some(n),
    ensures
        spec_arg_plan(views(args.args@)) == (ArgPlan::SingleFile { path_index: 1, offset: Some(n) }),
        args.bytes is None && args.offset is None ==> spec_offset_and_unit(args, Some(n)) == (n, OffsetUnit::Lines),
{
}

/// A lone signed number is an offset on stdin, in lines unless `-c` or
/// `-n` gives one.
pub proof fn law_lone_offset_is_stdin(args: Args, n: i64)
    requires
        views(args.args@).len() == 1,
        views(args.args@)[0].len() > 1,
        views(args.args@)[0][0] == '-' || views(args.args@)[0][0] == '+',
        spec_parse_i64(views(args.args@)[0]) == Some(n),
    ensures
        spec_arg_plan(views(args.args@)) == (ArgPlan::Stdin { offset: Some(n) }),
        args.bytes is None && args.offset is None ==> spec_offset_and_unit(args, Some(n)) == (n, OffsetUnit::Lines),
{
}

} // verus!
