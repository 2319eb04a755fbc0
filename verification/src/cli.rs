//! The command line of the native runner: subcommands and their arguments.

use vstd::prelude::*;
use crate::text::{decimal, str_eq, u64_text};

verus! {

/// Whether a character is an ASCII decimal digit.
pub open spec fn is_digit(c: char) -> bool {
    '0' <= c && c <= '9'
}

/// The value of a string of decimal digits.
pub open spec fn digits_value(s: Seq<char>) -> nat
    decreases s.len(),
{
    if s.len() == 0 {
        0
    } else {
        10 * digits_value(s.drop_last()) + ((s.last() as u32) - ('0' as u32)) as nat
    }
}

/// The digits of a number as `u8::from_str` reads it: an optional leading `+`
/// followed by at least one decimal digit.
pub open spec fn unsigned_digits(s: Seq<char>) -> Option<Seq<char>> {
    let d = if s.len() > 0 && s[0] == '+' {
        s.drop_first()
    } else {
        s
    };
    if d.len() > 0 && (forall|i: int| 0 <= i < d.len() ==> is_digit(#[trigger] d[i])) {
        Some(d)
    } else {
        None
    }
}

/// The `u8` that a text denotes, if it denotes one.
pub open spec fn spec_parse_u8(s: Seq<char>) -> Option<u8> {
    match unsigned_digits(s) {
        Some(d) => if digits_value(d) <= 255 {
            Some(digits_value(d) as u8)
        } else {
            None
        },
        None => None,
    }
}

/// The message of the error that `u8::from_str` gives for a text.
pub uninterp spec fn u8_parse_error_text(s: Seq<char>) -> Seq<char>;

/// Calls `str::parse::<u8>` and renders its error with `to_string`.  Trusted:
/// it succeeds exactly on an optional `+` followed by decimal digits whose
/// value is at most 255, with that value, as the standard library documents;
/// the error message is a function of the text alone, and its wording is not
/// stated here.
#[verifier::external_body]
pub(crate) fn parse_u8(s: &str) -> (r: Result<u8, String>)
    ensures
        match spec_parse_u8(s@) {
            Some(v) => r == Ok::<u8, String>(v),
            None => r matches Err(m) && m@ == u8_parse_error_text(s@),
        },
{
    s.parse::<u8>().map_err(|err| err.to_string())
}

/// The argument after position `ix`, read as a stage number for option `name`.
pub open spec fn spec_step_value(args: Seq<Seq<char>>, ix: int, name: Seq<char>) -> Result<u8, Seq<char>> {
    if ix + 1 >= args.len() {
        Err(name + " requires a value"@)
    } else {
        match spec_parse_u8(args[ix + 1]) {
            Some(v) => Ok(v),
            None => Err("invalid "@ + name + " value '"@ + args[ix + 1] + "': "@ + u8_parse_error_text(args[ix + 1])),
        }
    }
}

pub open spec fn views(args: Seq<String>) -> Seq<Seq<char>> {
    args.map_values(|a: String| a@)
}

/// Reads the value of option `name` at position `ix`.
pub fn parse_step_value(args: &Vec<String>, ix: usize, name: &str) -> (r: Result<u8, String>)
    requires
        ix < args@.len(),
    ensures
        match spec_step_value(views(args@), ix as int, name@) {
            Ok(v) => r == Ok::<u8, String>(v),
            Err(m) => r matches Err(x) && x@ == m,
        },
{
    if args.len() - ix < 2 {
        let mut m = String::from_str(name);
        m.append(" requires a value");
        return Err(m);
    }
    let value = args[ix + 1].as_str();
    proof {
        assert(views(args@)[ix + 1] == value@);
    }
    match parse_u8(value) {
        Ok(v) => Ok(v),
        Err(err) => {
            let mut m = String::from_str("invalid ");
            m.append(name);
            m.append(" value '");
            m.append(value);
            m.append("': ");
            m.append(err.as_str());
            Err(m)
        },
    }
}

/// Reads the options of `coverage` from position `ix`, with the range so far.
pub open spec fn spec_coverage_from(args: Seq<Seq<char>>, ix: int, start: u8, end: u8) -> Result<(u8, u8), Seq<char>>
    decreases args.len() - ix,
{
    if ix < 0 || ix >= args.len() {
        Ok((start, end))
    } else if args[ix] == "--start-step"@ {
        match spec_step_value(args, ix, "--start-step"@) {
            Err(m) => Err(m),
            Ok(v) => spec_coverage_from(args, ix + 2, v, end),
        }
    } else if args[ix] == "--end-step"@ {
        match spec_step_value(args, ix, "--end-step"@) {
            Err(m) => Err(m),
            Ok(v) => spec_coverage_from(args, ix + 2, start, v),
        }
    } else {
        Err("unexpected coverage argument '"@ + args[ix] + "'"@)
    }
}

/// The stage range of `coverage`: stages 1 to 8 unless `--start-step` or
/// `--end-step` say otherwise; a later option overrides an earlier one.
pub fn parse_coverage_args(args: &Vec<String>) -> (r: Result<(u8, u8), String>)
    ensures
        match spec_coverage_from(views(args@), 0, 1, 8) {
            Ok(p) => r == Ok::<(u8, u8), String>(p),
            Err(m) => r matches Err(x) && x@ == m,
        },
{
    let ghost av = views(args@);
    let mut start_step: u8 = 1;
    let mut end_step: u8 = 8;
    let mut ix: usize = 0;
    while ix < args.len()
        invariant
            av == views(args@),
            ix <= args@.len(),
            spec_coverage_from(av, 0, 1, 8) == spec_coverage_from(av, ix as int, start_step, end_step),
        decreases args@.len() - ix,
    {
        let a = args[ix].as_str();
        assert(av[ix as int] == a@);
        if str_eq(a, "--start-step") {
            start_step = parse_step_value(args, ix, "--start-step")?;
            ix = ix + 2;
        } else if str_eq(a, "--end-step") {
            end_step = parse_step_value(args, ix, "--end-step")?;
            ix = ix + 2;
        } else {
            let mut m = String::from_str("unexpected coverage argument '");
            m.append(a);
            m.append("'");
            return Err(m);
        }
    }
    Ok((start_step, end_step))
}

/// The path after `flag` when the arguments are exactly `flag PATH`.
pub open spec fn spec_flag_path(args: Seq<Seq<char>>, flag: Seq<char>) -> Option<Seq<char>> {
    if args.len() == 2 && args[0] == flag {
        Some(args[1])
    } else {
        None
    }
}

/// Reads the arguments `--patch PATH`.
pub fn parse_patch_arg(args: &[String]) -> (r: Result<String, String>)
    ensures
        match spec_flag_path(args@.map_values(|a: String| a@), "--patch"@) {
            Some(p) => r matches Ok(x) && x@ == p,
            None => r matches Err(m) && m@ == "expected --patch PATH"@,
        },
{
    if args.len() == 2 && str_eq(args[0].as_str(), "--patch") {
        Ok(args[1].clone())
    } else {
        Err(String::from_str("expected --patch PATH"))
    }
}

/// Reads the arguments `--dataset PATH`.
pub fn parse_dataset_arg(args: &[String]) -> (r: Result<String, String>)
    ensures
        match spec_flag_path(args@.map_values(|a: String| a@), "--dataset"@) {
            Some(p) => r matches Ok(x) && x@ == p,
            None => r matches Err(m) && m@ == "expected --dataset PATH"@,
        },
{
    if args.len() == 2 && str_eq(args[0].as_str(), "--dataset") {
        Ok(args[1].clone())
    } else {
        Err(String::from_str("expected --dataset PATH"))
    }
}

/// The options of `run`, as given on the command line.
pub struct RunOptions {
    /// Whether every stage must run natively.
    pub native_only: bool,
    /// The dataset directory.
    pub dataset: Option<String>,
    pub start_step: u8,
    pub end_step: u8,
    /// The runtime backend: `auto`, `threads`, `processes`, `gpu` or `native`.
    pub backend: String,
    /// The stage 2 kernel backend: `auto`, `python` or `native`.
    pub stage2_kernel_backend: String,
    /// The number of worker processes (0: as many as the machine has), as written.
    pub cpu_workers: String,
    /// The number of stage 2 threads (0: as many as the machine has), as written.
    pub stage2_native_threads: String,
}

/// The options of `run` with their texts as character sequences.
pub struct RunOptionsView {
    pub native_only: bool,
    pub dataset: Option<Seq<char>>,
    pub start_step: u8,
    pub end_step: u8,
    pub backend: Seq<char>,
    pub stage2_kernel_backend: Seq<char>,
    pub cpu_workers: Seq<char>,
    pub stage2_native_threads: Seq<char>,
}

impl View for RunOptions {
    type V = RunOptionsView;

    open spec fn view(&self) -> RunOptionsView {
        RunOptionsView {
            native_only: self.native_only,
            dataset: match self.dataset {
                Some(d) => Some(d@),
                None => None,
            },
            start_step: self.start_step,
            end_step: self.end_step,
            backend: self.backend@,
            stage2_kernel_backend: self.stage2_kernel_backend@,
            cpu_workers: self.cpu_workers@,
            stage2_native_threads: self.stage2_native_threads@,
        }
    }
}

/// The options of `run` before any is given: stages 1 to 8, the `auto`
/// backends, and as many workers and threads as the machine has.
pub open spec fn run_defaults() -> RunOptionsView {
    RunOptionsView {
        native_only: false,
        dataset: None,
        start_step: 1,
        end_step: 8,
        backend: "auto"@,
        stage2_kernel_backend: "auto"@,
        cpu_workers: "0"@,
        stage2_native_threads: "0"@,
    }
}

/// The text after position `ix`, as the value of option `name`.
pub open spec fn spec_text_value(args: Seq<Seq<char>>, ix: int, name: Seq<char>) -> Result<Seq<char>, Seq<char>> {
    if ix + 1 >= args.len() {
        Err(name + " requires a value"@)
    } else {
        Ok(args[ix + 1])
    }
}

/// Whether a text is one or more decimal digits.
pub open spec fn all_digits(s: Seq<char>) -> bool {
    s.len() > 0 && forall|i: int| 0 <= i < s.len() ==> is_digit(#[trigger] s[i])
}

/// The text after position `ix`, as the count given to option `name`.
pub open spec fn spec_count_value(args: Seq<Seq<char>>, ix: int, name: Seq<char>) -> Result<Seq<char>, Seq<char>> {
    match spec_text_value(args, ix, name) {
        Err(m) => Err(m),
        Ok(v) => if all_digits(v) {
            Ok(v)
        } else {
            Err("invalid "@ + name + " value '"@ + v + "'"@)
        },
    }
}

/// Reads the options of `run` from position `ix`, with the options so far; a
/// later option overrides an earlier one.
pub open spec fn spec_run_from(args: Seq<Seq<char>>, ix: int, o: RunOptionsView) -> Result<RunOptionsView, Seq<char>>
    decreases args.len() - ix,
{
    if ix < 0 || ix >= args.len() {
        Ok(o)
    } else if args[ix] == "--native-only"@ {
        spec_run_from(args, ix + 1, RunOptionsView { native_only: true, ..o })
    } else if args[ix] == "--dataset"@ {
        match spec_text_value(args, ix, "--dataset"@) {
            Err(m) => Err(m),
            Ok(v) => spec_run_from(args, ix + 2, RunOptionsView { dataset: Some(v), ..o }),
        }
    } else if args[ix] == "--start-step"@ {
        match spec_step_value(args, ix, "--start-step"@) {
            Err(m) => Err(m),
            Ok(v) => spec_run_from(args, ix + 2, RunOptionsView { start_step: v, ..o }),
        }
    } else if args[ix] == "--end-step"@ {
        match spec_step_value(args, ix, "--end-step"@) {
            Err(m) => Err(m),
            Ok(v) => spec_run_from(args, ix + 2, RunOptionsView { end_step: v, ..o }),
        }
    } else if args[ix] == "--backend"@ {
        match spec_text_value(args, ix, "--backend"@) {
            Err(m) => Err(m),
            Ok(v) => spec_run_from(args, ix + 2, RunOptionsView { backend: v, ..o }),
        }
    } else if args[ix] == "--stage2-kernel-backend"@ {
        match spec_text_value(args, ix, "--stage2-kernel-backend"@) {
            Err(m) => Err(m),
            Ok(v) => spec_run_from(args, ix + 2, RunOptionsView { stage2_kernel_backend: v, ..o }),
        }
    } else if args[ix] == "--cpu-workers"@ {
        match spec_count_value(args, ix, "--cpu-workers"@) {
            Err(m) => Err(m),
            Ok(v) => spec_run_from(args, ix + 2, RunOptionsView { cpu_workers: v, ..o }),
        }
    } else if args[ix] == "--stage2-native-threads"@ {
        match spec_count_value(args, ix, "--stage2-native-threads"@) {
            Err(m) => Err(m),
            Ok(v) => spec_run_from(args, ix + 2, RunOptionsView { stage2_native_threads: v, ..o }),
        }
    } else {
        Err("unexpected run argument '"@ + args[ix] + "'"@)
    }
}

/// The runtime backends that the runner accepts.
pub open spec fn runtime_backend(b: Seq<char>) -> bool {
    b == "auto"@ || b == "threads"@ || b == "processes"@ || b == "gpu"@ || b == "native"@
}

/// The stage 2 kernel backends that the runner accepts.
pub open spec fn kernel_backend(b: Seq<char>) -> bool {
    b == "auto"@ || b == "python"@ || b == "native"@
}

/// The options of `run` once checked: the backends must be known ones, a
/// native-only run needs both backends `native`, and a dataset is needed.
pub open spec fn spec_run_checked(o: RunOptionsView) -> Result<RunOptionsView, Seq<char>> {
    if !runtime_backend(o.backend) {
        Err("unsupported runtime backend '"@ + o.backend + "'"@)
    } else if !kernel_backend(o.stage2_kernel_backend) {
        Err("unsupported stage-2 kernel backend '"@ + o.stage2_kernel_backend + "'"@)
    } else if o.native_only && o.backend != "native"@ {
        Err("--native-only requires --backend native"@)
    } else if o.native_only && o.stage2_kernel_backend != "native"@ {
        Err("--native-only requires --stage2-kernel-backend native"@)
    } else if o.dataset is None {
        Err("run requires --dataset PATH"@)
    } else {
        Ok(o)
    }
}

/// The options that the arguments of `run` give, or the error.
pub open spec fn spec_run(args: Seq<Seq<char>>) -> Result<RunOptionsView, Seq<char>> {
    match spec_run_from(args, 0, run_defaults()) {
        Err(m) => Err(m),
        Ok(o) => spec_run_checked(o),
    }
}

/// Whether a text is one or more decimal digits.
fn digits_only(s: &str) -> (r: bool)
    ensures
        r == all_digits(s@),
{
    let n = s.unicode_len();
    if n == 0 {
        return false;
    }
    let mut k: usize = 0;
    while k < n
        invariant
            n == s@.len(),
            k <= n,
            forall|j: int| 0 <= j < k ==> is_digit(#[trigger] s@[j]),
        decreases n - k,
    {
        let c = s.get_char(k);
        if !('0' <= c && c <= '9') {
            return false;
        }
        k = k + 1;
    }
    true
}

/// The text after position `ix`, as the value of option `name`.
fn text_value(args: &Vec<String>, ix: usize, name: &str) -> (r: Result<String, String>)
    requires
        ix < args@.len(),
    ensures
        match spec_text_value(views(args@), ix as int, name@) {
            Ok(v) => r matches Ok(x) && x@ == v,
            Err(m) => r matches Err(x) && x@ == m,
        },
{
    if args.len() - ix < 2 {
        let mut m = String::from_str(name);
        m.append(" requires a value");
        return Err(m);
    }
    assert(views(args@)[ix + 1] == args@[ix + 1]@);
    Ok(args[ix + 1].clone())
}

/// The text after position `ix`, as the count given to option `name`.
fn count_value(args: &Vec<String>, ix: usize, name: &str) -> (r: Result<String, String>)
    requires
        ix < args@.len(),
    ensures
        match spec_count_value(views(args@), ix as int, name@) {
            Ok(v) => r matches Ok(x) && x@ == v,
            Err(m) => r matches Err(x) && x@ == m,
        },
{
    let v = text_value(args, ix, name)?;
    if digits_only(v.as_str()) {
        Ok(v)
    } else {
        let mut m = String::from_str("invalid ");
        m.append(name);
        m.append(" value '");
        m.append(v.as_str());
        m.append("'");
        Err(m)
    }
}

/// Reads and checks the options of `run`.
pub fn parse_run_args(args: &Vec<String>) -> (r: Result<RunOptions, String>)
    ensures
        match spec_run(views(args@)) {
            Ok(o) => r matches Ok(x) && x@ == o,
            Err(m) => r matches Err(x) && x@ == m,
        },
{
    let ghost av = views(args@);
    let mut o = RunOptions {
        native_only: false,
        dataset: None,
        start_step: 1,
        end_step: 8,
        backend: String::from_str("auto"),
        stage2_kernel_backend: String::from_str("auto"),
        cpu_workers: String::from_str("0"),
        stage2_native_threads: String::from_str("0"),
    };
    assert(o@ == run_defaults());
    let mut ix: usize = 0;
    while ix < args.len()
        invariant
            av == views(args@),
            ix <= args@.len(),
            spec_run_from(av, 0, run_defaults()) == spec_run_from(av, ix as int, o@),
        decreases args@.len() - ix,
    {
        let a = args[ix].as_str();
        assert(av[ix as int] == a@);
        if str_eq(a, "--native-only") {
            o.native_only = true;
            ix = ix + 1;
        } else if str_eq(a, "--dataset") {
            o.dataset = Some(text_value(args, ix, "--dataset")?);
            ix = ix + 2;
        } else if str_eq(a, "--start-step") {
            o.start_step = parse_step_value(args, ix, "--start-step")?;
            ix = ix + 2;
        } else if str_eq(a, "--end-step") {
            o.end_step = parse_step_value(args, ix, "--end-step")?;
            ix = ix + 2;
        } else if str_eq(a, "--backend") {
            o.backend = text_value(args, ix, "--backend")?;
            ix = ix + 2;
        } else if str_eq(a, "--stage2-kernel-backend") {
            o.stage2_kernel_backend = text_value(args, ix, "--stage2-kernel-backend")?;
            ix = ix + 2;
        } else if str_eq(a, "--cpu-workers") {
            o.cpu_workers = count_value(args, ix, "--cpu-workers")?;
            ix = ix + 2;
        } else if str_eq(a, "--stage2-native-threads") {
            o.stage2_native_threads = count_value(args, ix, "--stage2-native-threads")?;
            ix = ix + 2;
        } else {
            let mut m = String::from_str("unexpected run argument '");
            m.append(a);
            m.append("'");
            return Err(m);
        }
    }
    let b = o.backend.as_str();
    let k = o.stage2_kernel_backend.as_str();
    if !(str_eq(b, "auto") || str_eq(b, "threads") || str_eq(b, "processes") || str_eq(b, "gpu") || str_eq(b, "native")) {
        let mut m = String::from_str("unsupported runtime backend '");
        m.append(b);
        m.append("'");
        return Err(m);
    }
    if !(str_eq(k, "auto") || str_eq(k, "python") || str_eq(k, "native")) {
        let mut m = String::from_str("unsupported stage-2 kernel backend '");
        m.append(k);
        m.append("'");
        return Err(m);
    }
    if o.native_only && !str_eq(b, "native") {
        return Err(String::from_str("--native-only requires --backend native"));
    }
    if o.native_only && !str_eq(k, "native") {
        return Err(String::from_str("--native-only requires --stage2-kernel-backend native"));
    }
    if o.dataset.is_none() {
        return Err(String::from_str("run requires --dataset PATH"));
    }
    Ok(o)
}

/// What the command line asks the runner to do.
pub enum Command {
    /// Report the processing-chain coverage of stages `start_step..=end_step`.
    Coverage { start_step: u8, end_step: u8 },
    /// Run the chain of stages over a dataset.
    Run { options: RunOptions },
    /// Run stage 1 on one patch directory.
    Stage1 { patch: String },
    /// Run stage 2 on one patch directory.
    Stage2 { patch: String },
    /// Run stage 3 on one patch directory.
    Stage3 { patch: String },
    /// Run the per-patch part of stage 5.
    Stage5Patch { patch: String },
    /// Merge the stage 5 results of a dataset.
    Stage5Merge { dataset: String },
    /// Run stage 7 on a dataset.
    Stage7 { dataset: String },
    /// Run stage 8 on a dataset.
    Stage8 { dataset: String },
}

/// A command with its paths as character sequences.
pub enum CommandView {
    Coverage(u8, u8),
    Run(RunOptionsView),
    Stage1(Seq<char>),
    Stage2(Seq<char>),
    Stage3(Seq<char>),
    Stage5Patch(Seq<char>),
    Stage5Merge(Seq<char>),
    Stage7(Seq<char>),
    Stage8(Seq<char>),
}

impl View for Command {
    type V = CommandView;

    open spec fn view(&self) -> CommandView {
        match self {
            Command::Coverage { start_step, end_step } => CommandView::Coverage(*start_step, *end_step),
            Command::Run { options } => CommandView::Run(options@),
            Command::Stage1 { patch } => CommandView::Stage1(patch@),
            Command::Stage2 { patch } => CommandView::Stage2(patch@),
            Command::Stage3 { patch } => CommandView::Stage3(patch@),
            Command::Stage5Patch { patch } => CommandView::Stage5Patch(patch@),
            Command::Stage5Merge { dataset } => CommandView::Stage5Merge(dataset@),
            Command::Stage7 { dataset } => CommandView::Stage7(dataset@),
            Command::Stage8 { dataset } => CommandView::Stage8(dataset@),
        }
    }
}

/// `--patch PATH` turned into a command, or its error.
pub open spec fn with_patch(args: Seq<Seq<char>>, f: spec_fn(Seq<char>) -> CommandView) -> Result<CommandView, Seq<char>> {
    match spec_flag_path(args, "--patch"@) {
        Some(p) => Ok(f(p)),
        None => Err("expected --patch PATH"@),
    }
}

/// `--dataset PATH` turned into a command, or its error.
pub open spec fn with_dataset(args: Seq<Seq<char>>, f: spec_fn(Seq<char>) -> CommandView) -> Result<CommandView, Seq<char>> {
    match spec_flag_path(args, "--dataset"@) {
        Some(p) => Ok(f(p)),
        None => Err("expected --dataset PATH"@),
    }
}

/// Whether the runner executes a stage natively.
pub open spec fn native_executable(stage: u8) -> bool {
    stage == 1 || stage == 2 || stage == 3 || stage == 5 || stage == 7 || stage == 8
}

/// The command that `stage N ARGS...` denotes.
pub open spec fn spec_stage_command(args: Seq<Seq<char>>) -> Result<CommandView, Seq<char>> {
    if args.len() == 0 {
        Err("expected stage number"@)
    } else {
        let rest = args.drop_first();
        match spec_parse_u8(args[0]) {
            None => Err("invalid stage number '"@ + args[0] + "': "@ + u8_parse_error_text(args[0])),
            Some(n) => if !native_executable(n) {
                Err("stage "@ + decimal(n as nat) + " is not native-executable yet"@)
            } else if n == 1 {
                with_patch(rest, |p: Seq<char>| CommandView::Stage1(p))
            } else if n == 2 {
                with_patch(rest, |p: Seq<char>| CommandView::Stage2(p))
            } else if n == 3 {
                with_patch(rest, |p: Seq<char>| CommandView::Stage3(p))
            } else if n == 5 && rest.len() == 2 && rest[0] == "--dataset"@ {
                with_dataset(rest, |p: Seq<char>| CommandView::Stage5Merge(p))
            } else if n == 5 {
                with_patch(rest, |p: Seq<char>| CommandView::Stage5Patch(p))
            } else if n == 7 {
                with_dataset(rest, |p: Seq<char>| CommandView::Stage7(p))
            } else {
                with_dataset(rest, |p: Seq<char>| CommandView::Stage8(p))
            },
        }
    }
}

/// The command that a whole argument list (without the program name) denotes.
pub open spec fn spec_command(args: Seq<Seq<char>>) -> Result<CommandView, Seq<char>> {
    if args.len() == 0 {
        Err("missing subcommand"@)
    } else {
        let cmd = args[0];
        let rest = args.drop_first();
        if cmd == "coverage"@ {
            match spec_coverage_from(rest, 0, 1, 8) {
                Ok(p) => Ok(CommandView::Coverage(p.0, p.1)),
                Err(m) => Err(m),
            }
        } else if cmd == "run"@ {
            match spec_run(rest) {
                Ok(o) => Ok(CommandView::Run(o)),
                Err(m) => Err(m),
            }
        } else if cmd == "stage"@ {
            spec_stage_command(rest)
        } else if cmd == "stage1"@ {
            with_patch(rest, |p: Seq<char>| CommandView::Stage1(p))
        } else if cmd == "stage2"@ {
            with_patch(rest, |p: Seq<char>| CommandView::Stage2(p))
        } else if cmd == "stage3"@ {
            with_patch(rest, |p: Seq<char>| CommandView::Stage3(p))
        } else if cmd == "stage5"@ {
            with_patch(rest, |p: Seq<char>| CommandView::Stage5Patch(p))
        } else if cmd == "stage5-merge"@ {
            with_dataset(rest, |p: Seq<char>| CommandView::Stage5Merge(p))
        } else if cmd == "stage7"@ {
            with_dataset(rest, |p: Seq<char>| CommandView::Stage7(p))
        } else if cmd == "stage8"@ {
            with_dataset(rest, |p: Seq<char>| CommandView::Stage8(p))
        } else {
            Err("unknown subcommand '"@ + cmd + "'"@)
        }
    }
}

/// The arguments from position 1 on.
fn tail(args: &Vec<String>) -> (r: Vec<String>)
    requires
        args@.len() > 0,
    ensures
        views(r@) == views(args@).drop_first(),
{
    let mut r: Vec<String> = Vec::new();
    let mut i: usize = 1;
    while i < args.len()
        invariant
            1 <= i <= args@.len(),
            r@.len() == i - 1,
            forall|j: int| 0 <= j < r@.len() ==> #[trigger] r@[j]@ == args@[j + 1]@,
        decreases args@.len() - i,
    {
        r.push(args[i].clone());
        i = i + 1;
    }
    assert(views(r@) =~= views(args@).drop_first());
    r
}

/// Reads `stage N ARGS...`, given the arguments after `stage`.
fn parse_stage_command(args: &Vec<String>) -> (r: Result<Command, String>)
    ensures
        match spec_stage_command(views(args@)) {
            Ok(c) => r matches Ok(x) && x@ == c,
            Err(m) => r matches Err(x) && x@ == m,
        },
{
    let ghost av = views(args@);
    if args.len() == 0 {
        return Err(String::from_str("expected stage number"));
    }
    let first = args[0].as_str();
    assert(av[0] == first@);
    let n = match parse_u8(first) {
        Ok(n) => n,
        Err(err) => {
            let mut m = String::from_str("invalid stage number '");
            m.append(first);
            m.append("': ");
            m.append(err.as_str());
            return Err(m);
        },
    };
    if !(n == 1 || n == 2 || n == 3 || n == 5 || n == 7 || n == 8) {
        let mut m = String::from_str("stage ");
        let digits = u64_text(n as u64);
        m.append(digits.as_str());
        m.append(" is not native-executable yet");
        return Err(m);
    }
    let rest = tail(args);
    let ghost rv = views(rest@);
    assert(rv == av.drop_first());
    let rest_slice = rest.as_slice();
    assert(rest_slice@.map_values(|a: String| a@) =~= rv);
    if n == 1 {
        let p = parse_patch_arg(rest_slice)?;
        Ok(Command::Stage1 { patch: p })
    } else if n == 2 {
        let p = parse_patch_arg(rest_slice)?;
        Ok(Command::Stage2 { patch: p })
    } else if n == 3 {
        let p = parse_patch_arg(rest_slice)?;
        Ok(Command::Stage3 { patch: p })
    } else if n == 5 && rest.len() == 2 && str_eq(rest[0].as_str(), "--dataset") {
        assert(rv[0] == rest@[0]@);
        let d = parse_dataset_arg(rest_slice)?;
        Ok(Command::Stage5Merge { dataset: d })
    } else if n == 5 {
        proof {
            if rv.len() == 2 {
                assert(rv[0] == rest@[0]@);
            }
        }
        let p = parse_patch_arg(rest_slice)?;
        Ok(Command::Stage5Patch { patch: p })
    } else if n == 7 {
        let d = parse_dataset_arg(rest_slice)?;
        Ok(Command::Stage7 { dataset: d })
    } else {
        let d = parse_dataset_arg(rest_slice)?;
        Ok(Command::Stage8 { dataset: d })
    }
}

proof fn lemma_run_with_backend(dataset: Seq<char>, backend: Seq<char>)
    ensures
        spec_run_from(seq!["--dataset"@, dataset, "--backend"@, backend], 0, run_defaults()) == Ok::<RunOptionsView, Seq<char>>(
            RunOptionsView { dataset: Some(dataset), backend, ..run_defaults() },
        ),
{
    reveal_strlit("--native-only");
    reveal_strlit("--dataset");
    reveal_strlit("--start-step");
    reveal_strlit("--end-step");
    reveal_strlit("--backend");
    let args = seq!["--dataset"@, dataset, "--backend"@, backend];
    let o1 = RunOptionsView { dataset: Some(dataset), ..run_defaults() };
    let o2 = RunOptionsView { backend, ..o1 };
    assert("--backend"@[2] != "--dataset"@[2]);
    assert("--backend"@ != "--native-only"@ && "--backend"@ != "--dataset"@ && "--backend"@ != "--start-step"@
        && "--backend"@ != "--end-step"@);
    assert("--dataset"@ != "--native-only"@);
    assert(spec_run_from(args, 4, o2) == Ok::<RunOptionsView, Seq<char>>(o2));
    assert(spec_run_from(args, 2, o1) == spec_run_from(args, 4, o2));
    assert(spec_run_from(args, 0, run_defaults()) == spec_run_from(args, 2, o1));
    assert(o2 == RunOptionsView { dataset: Some(dataset), backend, ..run_defaults() });
}

proof fn lemma_run_command(rest: Seq<Seq<char>>)
    ensures
        spec_command(seq!["run"@].add(rest)) == match spec_run(rest) {
            Ok(o) => Ok(CommandView::Run(o)),
            Err(m) => Err(m),
        },
{
    reveal_strlit("run");
    reveal_strlit("coverage");
    let args = seq!["run"@].add(rest);
    assert(args.drop_first() =~= rest);
    assert(args[0] == "run"@);
}

proof fn lemma_run_with_kernel(dataset: Seq<char>, kernel: Seq<char>)
    ensures
        spec_run_from(seq!["--dataset"@, dataset, "--stage2-kernel-backend"@, kernel], 0, run_defaults()) == Ok::<
            RunOptionsView,
            Seq<char>,
        >(RunOptionsView { dataset: Some(dataset), stage2_kernel_backend: kernel, ..run_defaults() }),
{
    reveal_strlit("--native-only");
    reveal_strlit("--dataset");
    reveal_strlit("--start-step");
    reveal_strlit("--end-step");
    reveal_strlit("--backend");
    reveal_strlit("--stage2-kernel-backend");
    let args = seq!["--dataset"@, dataset, "--stage2-kernel-backend"@, kernel];
    let o1 = RunOptionsView { dataset: Some(dataset), ..run_defaults() };
    let o2 = RunOptionsView { stage2_kernel_backend: kernel, ..o1 };
    assert("--dataset"@ != "--native-only"@);
    assert(spec_run_from(args, 4, o2) == Ok::<RunOptionsView, Seq<char>>(o2));
    assert(spec_run_from(args, 2, o1) == spec_run_from(args, 4, o2));
    assert(spec_run_from(args, 0, run_defaults()) == spec_run_from(args, 2, o1));
}

/// `run` with a dataset accepts each of the documented stage 2 kernel
/// backends auto, python and native, and refuses every other one, naming it.
pub proof fn law_run_kernel_backends(dataset: Seq<char>, kernel: Seq<char>)
    ensures
        (kernel == "auto"@ || kernel == "python"@ || kernel == "native"@) ==> spec_command(
            seq!["run"@, "--dataset"@, dataset, "--stage2-kernel-backend"@, kernel],
        ) == Ok::<CommandView, Seq<char>>(
            CommandView::Run(RunOptionsView { dataset: Some(dataset), stage2_kernel_backend: kernel, ..run_defaults() }),
        ),
        !(kernel == "auto"@ || kernel == "python"@ || kernel == "native"@) ==> spec_command(
            seq!["run"@, "--dataset"@, dataset, "--stage2-kernel-backend"@, kernel],
        ) == Err::<CommandView, Seq<char>>("unsupported stage-2 kernel backend '"@ + kernel + "'"@),
{
    let rest = seq!["--dataset"@, dataset, "--stage2-kernel-backend"@, kernel];
    assert(seq!["run"@].add(rest) =~= seq!["run"@, "--dataset"@, dataset, "--stage2-kernel-backend"@, kernel]);
    lemma_run_command(rest);
    lemma_run_with_kernel(dataset, kernel);
}

/// `run` with a dataset accepts each of the documented runtime backends
/// auto, threads, processes, gpu and native, with every other option at its
/// default: steps 1 to 8, stage 2 kernels `auto`, worker counts 0.
pub proof fn law_run_accepts_documented_backends(dataset: Seq<char>, backend: Seq<char>)
    requires
        backend == "auto"@ || backend == "threads"@ || backend == "processes"@ || backend == "gpu"@ || backend == "native"@,
    ensures
        spec_command(seq!["run"@, "--dataset"@, dataset, "--backend"@, backend]) == Ok::<CommandView, Seq<char>>(
            CommandView::Run(RunOptionsView { dataset: Some(dataset), backend, ..run_defaults() }),
        ),
        spec_command(seq!["run"@, "--dataset"@, dataset, "--backend"@, backend]) matches Ok(CommandView::Run(o))
            && o.backend == backend && o.start_step == 1 && o.end_step == 8 && !o.native_only,
{
    let rest = seq!["--dataset"@, dataset, "--backend"@, backend];
    assert(seq!["run"@].add(rest) =~= seq!["run"@, "--dataset"@, dataset, "--backend"@, backend]);
    lemma_run_command(rest);
    lemma_run_with_backend(dataset, backend);
    reveal_strlit("auto");
}

/// `run` refuses every runtime backend other than auto, threads, processes,
/// gpu and native, naming it.
pub proof fn law_run_refuses_other_backends(dataset: Seq<char>, backend: Seq<char>)
    requires
        !(backend == "auto"@ || backend == "threads"@ || backend == "processes"@ || backend == "gpu"@ || backend == "native"@),
    ensures
        spec_command(seq!["run"@, "--dataset"@, dataset, "--backend"@, backend]) == Err::<CommandView, Seq<char>>(
            "unsupported runtime backend '"@ + backend + "'"@,
        ),
{
    let rest = seq!["--dataset"@, dataset, "--backend"@, backend];
    assert(seq!["run"@].add(rest) =~= seq!["run"@, "--dataset"@, dataset, "--backend"@, backend]);
    lemma_run_command(rest);
    lemma_run_with_backend(dataset, backend);
}

/// Reads the whole command line, without the program name: the subcommand
/// and its arguments, with the errors that the runner reports.
pub fn parse_command(args: &Vec<String>) -> (r: Result<Command, String>)
    ensures
        match spec_command(views(args@)) {
            Ok(c) => r matches Ok(x) && x@ == c,
            Err(m) => r matches Err(x) && x@ == m,
        },
{
    let ghost av = views(args@);
    if args.len() == 0 {
        return Err(String::from_str("missing subcommand"));
    }
    let cmd = args[0].as_str();
    assert(av[0] == cmd@);
    let rest = tail(args);
    let ghost rv = views(rest@);
    let rest_slice = rest.as_slice();
    assert(rest_slice@.map_values(|a: String| a@) =~= rv);
    if str_eq(cmd, "coverage") {
        let (start_step, end_step) = parse_coverage_args(&rest)?;
        Ok(Command::Coverage { start_step, end_step })
    } else if str_eq(cmd, "run") {
        let options = parse_run_args(&rest)?;
        Ok(Command::Run { options })
    } else if str_eq(cmd, "stage") {
        parse_stage_command(&rest)
    } else if str_eq(cmd, "stage1") {
        let p = parse_patch_arg(rest_slice)?;
        Ok(Command::Stage1 { patch: p })
    } else if str_eq(cmd, "stage2") {
        let p = parse_patch_arg(rest_slice)?;
        Ok(Command::Stage2 { patch: p })
    } else if str_eq(cmd, "stage3") {
        let p = parse_patch_arg(rest_slice)?;
        Ok(Command::Stage3 { patch: p })
    } else if str_eq(cmd, "stage5") {
        let p = parse_patch_arg(rest_slice)?;
        Ok(Command::Stage5Patch { patch: p })
    } else if str_eq(cmd, "stage5-merge") {
        let d = parse_dataset_arg(rest_slice)?;
        Ok(Command::Stage5Merge { dataset: d })
    } else if str_eq(cmd, "stage7") {
        let d = parse_dataset_arg(rest_slice)?;
        Ok(Command::Stage7 { dataset: d })
    } else if str_eq(cmd, "stage8") {
        let d = parse_dataset_arg(rest_slice)?;
        Ok(Command::Stage8 { dataset: d })
    } else {
        let mut m = String::from_str("unknown subcommand '");
        m.append(cmd);
        m.append("'");
        Err(m)
    }
}

} // verus!
