//! The command-line tools: decimal numbers as `str::parse` reads them, the options of the
//! benchmark, evaluation and vision-helper programs, and the small decisions they make
//! (decoder audio context, thread count, vision prompt).
use vstd::prelude::*;
use crate::text::{concat3, from_chars, str_eq, to_chars};
use crate::logging::{signed_decimal, signed_decimal_exec};
use crate::ambient::string_views;

verus! {

pub open spec fn is_digit(c: char) -> bool {
    '0' <= c && c <= '9'
}

/// Why `str::parse` refused a number.
#[derive(Clone, Copy, Debug, PartialEq, Eq, Structural)]
pub enum IntErrorKind {
    Empty,
    InvalidDigit,
    PosOverflow,
}

/// Reads decimal digits after the value `acc` read so far, as `str::parse` does: a character
/// that is not a digit is refused before the value is checked against `max`.
pub open spec fn digits_result(d: Seq<char>, acc: nat, max: nat) -> Result<nat, IntErrorKind>
    decreases d.len(),
{
    if d.len() == 0 {
        Ok(acc)
    } else if !is_digit(d[0]) {
        Err(IntErrorKind::InvalidDigit)
    } else if 10 * acc + ((d[0] as int) - ('0' as int)) > max {
        Err(IntErrorKind::PosOverflow)
    } else {
        digits_result(d.drop_first(), (10 * acc + ((d[0] as int) - ('0' as int))) as nat, max)
    }
}

/// An unsigned number of at most `max` as `str::parse` reads it, with the reason of a refusal.
pub open spec fn unsigned_result(s: Seq<char>, max: nat) -> Result<nat, IntErrorKind> {
    if s.len() == 0 {
        Err(IntErrorKind::Empty)
    } else if (s[0] == '+' || s[0] == '-') && s.len() == 1 {
        Err(IntErrorKind::InvalidDigit)
    } else if s[0] == '+' {
        digits_result(s.drop_first(), 0, max)
    } else {
        digits_result(s, 0, max)
    }
}

/// The text that `str::parse` gives for the reason of a refusal.
pub open spec fn int_error_text(k: IntErrorKind) -> Seq<char> {
    match k {
        IntErrorKind::Empty => "cannot parse integer from empty string"@,
        IntErrorKind::InvalidDigit => "invalid digit found in string"@,
        IntErrorKind::PosOverflow => "number too large to fit in target type"@,
    }
}

impl IntErrorKind {
    pub fn message(&self) -> (r: &'static str)
        ensures
            r@ == int_error_text(*self),
    {
        match self {
            IntErrorKind::Empty => "cannot parse integer from empty string",
            IntErrorKind::InvalidDigit => "invalid digit found in string",
            IntErrorKind::PosOverflow => "number too large to fit in target type",
        }
    }
}

/// Reads the digits of `d` from `start` on after the value `acc`.
fn read_digits(d: &Vec<char>, start: usize, acc: u64, max: u64) -> (r: Result<u64, IntErrorKind>)
    requires
        start <= d@.len(),
        acc <= max,
    ensures
        match r {
            Ok(v) => digits_result(d@.skip(start as int), acc as nat, max as nat) == Ok::<
                nat,
                IntErrorKind,
            >(v as nat) && v <= max,
            Err(e) => digits_result(d@.skip(start as int), acc as nat, max as nat) == Err::<
                nat,
                IntErrorKind,
            >(e),
        },
{
    let mut value: u64 = acc;
    let mut i: usize = start;
    while i < d.len()
        invariant
            start <= i <= d@.len(),
            value <= max,
            digits_result(d@.skip(start as int), acc as nat, max as nat) == digits_result(
                d@.skip(i as int),
                value as nat,
                max as nat,
            ),
        decreases d@.len() - i,
    {
        let c = d[i];
        assert(d@.skip(i as int)[0] == c);
        assert(d@.skip(i as int).drop_first() =~= d@.skip(i + 1));
        if !('0' <= c && c <= '9') {
            return Err(IntErrorKind::InvalidDigit);
        }
        let digit = (c as u32 - '0' as u32) as u64;
        if value > max / 10 || (value == max / 10 && digit > max % 10) {
            assert(10 * value + digit > max) by (nonlinear_arith)
                requires
                    value > max / 10 || (value == max / 10 && digit > max % 10),
                    max == 10 * (max / 10) + max % 10,
            {
            }
            return Err(IntErrorKind::PosOverflow);
        }
        assert(10 * value + digit <= max) by (nonlinear_arith)
            requires
                !(value > max / 10 || (value == max / 10 && digit > max % 10)),
                max == 10 * (max / 10) + max % 10,
                digit <= 9,
        {
        }
        value = value * 10 + digit;
        i = i + 1;
    }
    assert(d@.skip(i as int).len() == 0);
    Ok(value)
}

/// `str::parse` of an unsigned number of at most `max`, with the reason of a refusal.
pub fn parse_unsigned_detailed(s: &str, max: u64) -> (r: Result<u64, IntErrorKind>)
    ensures
        match r {
            Ok(v) => unsigned_result(s@, max as nat) == Ok::<nat, IntErrorKind>(v as nat) && v
                <= max,
            Err(e) => unsigned_result(s@, max as nat) == Err::<nat, IntErrorKind>(e),
        },
{
    let c = to_chars(s);
    if c.len() == 0 {
        return Err(IntErrorKind::Empty);
    }
    if (c[0] == '+' || c[0] == '-') && c.len() == 1 {
        return Err(IntErrorKind::InvalidDigit);
    }
    if c[0] == '+' {
        assert(c@.skip(1) =~= c@.drop_first());
        read_digits(&c, 1, 0, max)
    } else {
        assert(c@.skip(0) =~= c@);
        read_digits(&c, 0, 0, max)
    }
}

/// What the digit reader accepts is at most its limit.
pub proof fn lemma_digits_result_bound(d: Seq<char>, acc: nat, max: nat)
    requires
        acc <= max,
    ensures
        digits_result(d, acc, max) matches Ok(v) ==> v <= max,
    decreases d.len(),
{
    if d.len() > 0 && is_digit(d[0]) && 10 * acc + ((d[0] as int) - ('0' as int)) <= max {
        lemma_digits_result_bound(
            d.drop_first(),
            (10 * acc + ((d[0] as int) - ('0' as int))) as nat,
            max,
        );
    }
}

/// A signed number that `parsed_i32` accepts lies in the range of `i32`.
pub proof fn lemma_parsed_i32_range(s: Seq<char>)
    ensures
        parsed_i32(s) matches Some(v) ==> i32::MIN <= v <= i32::MAX,
{
    if s.len() > 1 && s[0] == '-' {
        lemma_digits_result_bound(s.drop_first(), 0, 0x8000_0000);
    } else if s.len() > 1 && s[0] == '+' {
        lemma_digits_result_bound(s.drop_first(), 0, 0x7fff_ffff);
    } else {
        lemma_digits_result_bound(s, 0, 0x7fff_ffff);
    }
}

/// An unsigned number of at most `max` as `str::parse` reads it: an optional `+` and at least
/// one decimal digit, nothing else.
pub open spec fn parsed_unsigned(s: Seq<char>, max: nat) -> Option<nat> {
    match unsigned_result(s, max) {
        Ok(v) => Some(v),
        Err(_) => None,
    }
}

/// A signed 32-bit number as `str::parse` reads it: an optional `+` or `-` and at least one
/// decimal digit, nothing else, within the range of `i32`.
pub open spec fn parsed_i32(s: Seq<char>) -> Option<int> {
    if s.len() > 0 && s[0] == '-' {
        if s.len() == 1 {
            None
        } else {
            match digits_result(s.drop_first(), 0, 0x8000_0000) {
                Ok(v) => Some(-(v as int)),
                Err(_) => None,
            }
        }
    } else {
        match parsed_unsigned(s, 0x7fff_ffff) {
            Some(v) => Some(v as int),
            None => None,
        }
    }
}

/// `str::parse` for an unsigned number of at most `max`.
pub fn parse_unsigned(s: &str, max: u64) -> (r: Option<u64>)
    ensures
        match r {
            Some(v) => parsed_unsigned(s@, max as nat) == Some(v as nat) && v <= max,
            None => parsed_unsigned(s@, max as nat) is None,
        },
{
    match parse_unsigned_detailed(s, max) {
        Ok(v) => Some(v),
        Err(_) => None,
    }
}

/// `str::parse::<usize>`.
pub fn parse_usize(s: &str) -> (r: Option<usize>)
    ensures
        match r {
            Some(v) => parsed_unsigned(s@, usize::MAX as nat) == Some(v as nat),
            None => parsed_unsigned(s@, usize::MAX as nat) is None,
        },
{
    match parse_unsigned(s, usize::MAX as u64) {
        Some(v) => Some(v as usize),
        None => None,
    }
}

/// `str::parse::<u32>`.
pub fn parse_u32(s: &str) -> (r: Option<u32>)
    ensures
        match r {
            Some(v) => parsed_unsigned(s@, u32::MAX as nat) == Some(v as nat),
            None => parsed_unsigned(s@, u32::MAX as nat) is None,
        },
{
    match parse_unsigned(s, u32::MAX as u64) {
        Some(v) => Some(v as u32),
        None => None,
    }
}

/// `str::parse::<i32>`.
pub fn parse_i32(s: &str) -> (r: Option<i32>)
    ensures
        match r {
            Some(v) => parsed_i32(s@) == Some(v as int),
            None => parsed_i32(s@) is None,
        },
{
    let c = to_chars(s);
    if c.len() > 0 && c[0] == '-' {
        if c.len() == 1 {
            return None;
        }
        assert(c@.skip(1) =~= c@.drop_first());
        match read_digits(&c, 1, 0, 0x8000_0000) {
            Ok(v) => {
                let n: i64 = 0 - (v as i64);
                Some(n as i32)
            },
            Err(_) => None,
        }
    } else {
        match parse_unsigned(s, 0x7fff_ffff) {
            Some(v) => Some(v as i32),
            None => None,
        }
    }
}

/// The benchmark programs that share one command-line grammar.
#[derive(Clone, Copy, Debug, PartialEq, Eq, Structural)]
pub enum BenchTool {
    DirectWhisper,
    OuterWall,
    LatencyBench,
    AppPath,
}

/// How much audio context the decoder is given.
#[derive(Clone, Copy, Debug, PartialEq, Eq, Structural)]
pub enum AudioContextStrategy {
    Adaptive,
    ModelDefault,
    Fixed(i32),
}

/// The options that take a value.
#[derive(Clone, Copy, Debug, PartialEq, Eq, Structural)]
pub enum CliFlag {
    Model,
    Iterations,
    Warmup,
    Threads,
    AudioCtx,
    DeviceRate,
}

/// The options of a benchmark run.
#[derive(Debug)]
pub struct BenchCli {
    pub model: String,
    pub iterations: usize,
    pub warmup: usize,
    pub threads: Option<i32>,
    pub reuse_state: bool,
    pub no_timestamps: bool,
    pub audio_ctx: AudioContextStrategy,
    pub device_rate: u32,
    pub dispatch_paste: bool,
    pub inputs: Vec<String>,
}

pub ghost struct BenchCliView {
    pub model: Seq<char>,
    pub iterations: nat,
    pub warmup: nat,
    pub threads: Option<int>,
    pub reuse_state: bool,
    pub no_timestamps: bool,
    pub audio_ctx: AudioContextStrategy,
    pub device_rate: nat,
    pub dispatch_paste: bool,
    pub inputs: Seq<Seq<char>>,
}

impl View for BenchCli {
    type V = BenchCliView;

    open spec fn view(&self) -> BenchCliView {
        BenchCliView {
            model: self.model@,
            iterations: self.iterations as nat,
            warmup: self.warmup as nat,
            threads: match self.threads {
                Some(t) => Some(t as int),
                None => None,
            },
            reuse_state: self.reuse_state,
            no_timestamps: self.no_timestamps,
            audio_ctx: self.audio_ctx,
            device_rate: self.device_rate as nat,
            dispatch_paste: self.dispatch_paste,
            inputs: string_views(self.inputs@),
        }
    }
}

/// A command line that was refused.
#[derive(Debug)]
pub enum CliError {
    MissingValue(CliFlag),
    InvalidValue(CliFlag, String),
    NotPositive(CliFlag),
    UnknownFlag(String),
    NoInputs,
}

/// What a command line asks for: a run with these options, or the usage text.
#[derive(Debug)]
pub enum ParsedArgs {
    Run(BenchCli),
    Help,
}

pub ghost enum ArgsOutcome {
    Run(BenchCliView),
    Help,
    MissingValue(CliFlag),
    InvalidValue(CliFlag, Seq<char>),
    NotPositive(CliFlag),
    UnknownFlag(Seq<char>),
    NoInputs,
}

/// What a call of `parse_args` returned, as an outcome.
pub open spec fn args_result_view(r: Result<ParsedArgs, CliError>) -> ArgsOutcome {
    match r {
        Ok(ParsedArgs::Run(cli)) => ArgsOutcome::Run(cli@),
        Ok(ParsedArgs::Help) => ArgsOutcome::Help,
        Err(CliError::MissingValue(f)) => ArgsOutcome::MissingValue(f),
        Err(CliError::InvalidValue(f, v)) => ArgsOutcome::InvalidValue(f, v@),
        Err(CliError::NotPositive(f)) => ArgsOutcome::NotPositive(f),
        Err(CliError::UnknownFlag(a)) => ArgsOutcome::UnknownFlag(a@),
        Err(CliError::NoInputs) => ArgsOutcome::NoInputs,
    }
}

pub open spec fn default_iterations(tool: BenchTool) -> nat {
    match tool {
        BenchTool::AppPath => 10,
        _ => 15,
    }
}

/// The options before any argument is read.
pub open spec fn bench_defaults(tool: BenchTool) -> BenchCliView {
    BenchCliView {
        model: "base"@,
        iterations: default_iterations(tool),
        warmup: 2,
        threads: None,
        reuse_state: true,
        no_timestamps: true,
        audio_ctx: AudioContextStrategy::Adaptive,
        device_rate: 48_000,
        dispatch_paste: false,
        inputs: Seq::empty(),
    }
}

/// A count option: a `usize`, and, for the number of iterations, not zero.
pub open spec fn count_step(
    tool: BenchTool,
    args: Seq<Seq<char>>,
    i: int,
    flag: CliFlag,
    st: BenchCliView,
) -> ArgsOutcome
    decreases args.len() - i, 0int,
{
    if i + 1 >= args.len() {
        ArgsOutcome::MissingValue(flag)
    } else {
        match parsed_unsigned(args[i + 1], usize::MAX as nat) {
            None => ArgsOutcome::InvalidValue(flag, args[i + 1]),
            Some(n) => if flag == CliFlag::Iterations {
                if n == 0 {
                    ArgsOutcome::NotPositive(flag)
                } else {
                    bench_args_from(tool, args, i + 2, BenchCliView { iterations: n, ..st })
                }
            } else {
                bench_args_from(tool, args, i + 2, BenchCliView { warmup: n, ..st })
            },
        }
    }
}

/// An `i32` option that must be greater than zero: the decoder threads or the audio context.
pub open spec fn positive_i32_step(
    tool: BenchTool,
    args: Seq<Seq<char>>,
    i: int,
    flag: CliFlag,
    st: BenchCliView,
) -> ArgsOutcome
    decreases args.len() - i, 0int,
{
    if i + 1 >= args.len() {
        ArgsOutcome::MissingValue(flag)
    } else {
        match parsed_i32(args[i + 1]) {
            None => ArgsOutcome::InvalidValue(flag, args[i + 1]),
            Some(n) => if n <= 0 {
                ArgsOutcome::NotPositive(flag)
            } else if flag == CliFlag::Threads {
                bench_args_from(tool, args, i + 2, BenchCliView { threads: Some(n), ..st })
            } else {
                bench_args_from(
                    tool,
                    args,
                    i + 2,
                    BenchCliView { audio_ctx: AudioContextStrategy::Fixed(n as i32), ..st },
                )
            },
        }
    }
}

/// The device sample rate: a `u32` greater than zero.
pub open spec fn device_rate_step(
    tool: BenchTool,
    args: Seq<Seq<char>>,
    i: int,
    st: BenchCliView,
) -> ArgsOutcome
    decreases args.len() - i, 0int,
{
    if i + 1 >= args.len() {
        ArgsOutcome::MissingValue(CliFlag::DeviceRate)
    } else {
        match parsed_unsigned(args[i + 1], u32::MAX as nat) {
            None => ArgsOutcome::InvalidValue(CliFlag::DeviceRate, args[i + 1]),
            Some(n) => if n == 0 {
                ArgsOutcome::NotPositive(CliFlag::DeviceRate)
            } else {
                bench_args_from(tool, args, i + 2, BenchCliView { device_rate: n, ..st })
            },
        }
    }
}

/// Reads the arguments from index `i` on, with the options read so far in `st`: each option
/// as the tool knows it, `--help` or `-h` at once, any other word that starts with `-` as an
/// unknown flag, and every other word as an input file; at the end at least one input.
pub open spec fn bench_args_from(
    tool: BenchTool,
    args: Seq<Seq<char>>,
    i: int,
    st: BenchCliView,
) -> ArgsOutcome
    decreases args.len() - i, 1int,
{
    if i < 0 || i >= args.len() {
        if st.inputs.len() == 0 {
            ArgsOutcome::NoInputs
        } else {
            ArgsOutcome::Run(st)
        }
    } else {
        let arg = args[i];
        let bench = tool == BenchTool::LatencyBench;
        let app = tool == BenchTool::AppPath;
        if arg == "--model"@ {
            if i + 1 >= args.len() {
                ArgsOutcome::MissingValue(CliFlag::Model)
            } else {
                bench_args_from(tool, args, i + 2, BenchCliView { model: args[i + 1], ..st })
            }
        } else if arg == "--iterations"@ {
            count_step(tool, args, i, CliFlag::Iterations, st)
        } else if arg == "--warmup"@ {
            count_step(tool, args, i, CliFlag::Warmup, st)
        } else if bench && arg == "--threads"@ {
            positive_i32_step(tool, args, i, CliFlag::Threads, st)
        } else if bench && arg == "--audio-ctx"@ {
            positive_i32_step(tool, args, i, CliFlag::AudioCtx, st)
        } else if bench && arg == "--fresh-state"@ {
            bench_args_from(tool, args, i + 1, BenchCliView { reuse_state: false, ..st })
        } else if bench && arg == "--timestamps"@ {
            bench_args_from(tool, args, i + 1, BenchCliView { no_timestamps: false, ..st })
        } else if bench && arg == "--full-audio-ctx"@ {
            bench_args_from(
                tool,
                args,
                i + 1,
                BenchCliView { audio_ctx: AudioContextStrategy::ModelDefault, ..st },
            )
        } else if app && arg == "--device-rate"@ {
            device_rate_step(tool, args, i, st)
        } else if app && arg == "--dispatch-paste"@ {
            bench_args_from(tool, args, i + 1, BenchCliView { dispatch_paste: true, ..st })
        } else if arg == "--help"@ || arg == "-h"@ {
            ArgsOutcome::Help
        } else if arg.len() > 0 && arg[0] == '-' {
            ArgsOutcome::UnknownFlag(arg)
        } else {
            bench_args_from(tool, args, i + 1, BenchCliView { inputs: st.inputs.push(arg), ..st })
        }
    }
}

/// The outcome of a whole command line.
pub open spec fn bench_args(tool: BenchTool, args: Seq<Seq<char>>) -> ArgsOutcome {
    bench_args_from(tool, args, 0, bench_defaults(tool))
}


fn default_bench_cli(tool: BenchTool) -> (r: BenchCli)
    ensures
        r@ == bench_defaults(tool),
{
    let iterations: usize = if tool == BenchTool::AppPath {
        10
    } else {
        15
    };
    let r = BenchCli {
        model: "base".to_string(),
        iterations,
        warmup: 2,
        threads: None,
        reuse_state: true,
        no_timestamps: true,
        audio_ctx: AudioContextStrategy::Adaptive,
        device_rate: 48_000,
        dispatch_paste: false,
        inputs: Vec::new(),
    };
    assert(string_views(r.inputs@) =~= Seq::<Seq<char>>::empty());
    r
}

/// Reads the command line of a benchmark program (without the program's name): `--model`,
/// `--iterations` (at least 1) and `--warmup` for every tool; `--threads`, `--fresh-state`,
/// `--timestamps`, `--full-audio-ctx` and `--audio-ctx` for the latency bench; `--device-rate`
/// (at least 1) and `--dispatch-paste` for the app-path bench; `--help` or `-h` asks for the
/// usage text; the other words are input files, of which there must be at least one.
pub fn parse_args(tool: BenchTool, args: &Vec<String>) -> (r: Result<ParsedArgs, CliError>)
    ensures
        args_result_view(r) == bench_args(tool, string_views(args@)),
{
    let ghost a = string_views(args@);
    let mut st = default_bench_cli(tool);
    let bench = tool == BenchTool::LatencyBench;
    let app = tool == BenchTool::AppPath;
    let mut i: usize = 0;
    while i < args.len()
        invariant
            i <= args.len(),
            a == string_views(args@),
            bench == (tool == BenchTool::LatencyBench),
            app == (tool == BenchTool::AppPath),
            bench_args(tool, a) == bench_args_from(tool, a, i as int, st@),
        decreases args.len() - i,
    {
        let arg = args[i].as_str();
        assert(a[i as int] == arg@);
        let has_value = i + 1 < args.len();
        if str_eq(arg, "--model") {
            if !has_value {
                return Err(CliError::MissingValue(CliFlag::Model));
            }
            st.model = args[i + 1].clone();
            i = i + 2;
        } else if str_eq(arg, "--iterations") || str_eq(arg, "--warmup") {
            let flag = if str_eq(arg, "--iterations") {
                CliFlag::Iterations
            } else {
                CliFlag::Warmup
            };
            assert(bench_args_from(tool, a, i as int, st@) == count_step(tool, a, i as int, flag, st@));
            if !has_value {
                return Err(CliError::MissingValue(flag));
            }
            let value = args[i + 1].as_str();
            match parse_usize(value) {
                None => {
                    return Err(CliError::InvalidValue(flag, args[i + 1].clone()));
                },
                Some(n) => {
                    if str_eq(arg, "--iterations") {
                        if n == 0 {
                            return Err(CliError::NotPositive(flag));
                        }
                        st.iterations = n;
                    } else {
                        st.warmup = n;
                    }
                },
            }
            i = i + 2;
        } else if bench && (str_eq(arg, "--threads") || str_eq(arg, "--audio-ctx")) {
            let flag = if str_eq(arg, "--threads") {
                CliFlag::Threads
            } else {
                CliFlag::AudioCtx
            };
            assert(bench_args_from(tool, a, i as int, st@) == positive_i32_step(
                tool,
                a,
                i as int,
                flag,
                st@,
            ));
            if !has_value {
                return Err(CliError::MissingValue(flag));
            }
            let value = args[i + 1].as_str();
            match parse_i32(value) {
                None => {
                    return Err(CliError::InvalidValue(flag, args[i + 1].clone()));
                },
                Some(n) => {
                    if n <= 0 {
                        return Err(CliError::NotPositive(flag));
                    }
                    if str_eq(arg, "--threads") {
                        st.threads = Some(n);
                    } else {
                        st.audio_ctx = AudioContextStrategy::Fixed(n);
                    }
                },
            }
            i = i + 2;
        } else if bench && str_eq(arg, "--fresh-state") {
            st.reuse_state = false;
            i = i + 1;
        } else if bench && str_eq(arg, "--timestamps") {
            st.no_timestamps = false;
            i = i + 1;
        } else if bench && str_eq(arg, "--full-audio-ctx") {
            st.audio_ctx = AudioContextStrategy::ModelDefault;
            i = i + 1;
        } else if app && str_eq(arg, "--device-rate") {
            assert(bench_args_from(tool, a, i as int, st@) == device_rate_step(tool, a, i as int, st@));
            if !has_value {
                return Err(CliError::MissingValue(CliFlag::DeviceRate));
            }
            let value = args[i + 1].as_str();
            match parse_u32(value) {
                None => {
                    return Err(CliError::InvalidValue(CliFlag::DeviceRate, args[i + 1].clone()));
                },
                Some(n) => {
                    if n == 0 {
                        return Err(CliError::NotPositive(CliFlag::DeviceRate));
                    }
                    st.device_rate = n;
                },
            }
            i = i + 2;
        } else if app && str_eq(arg, "--dispatch-paste") {
            st.dispatch_paste = true;
            i = i + 1;
        } else if str_eq(arg, "--help") || str_eq(arg, "-h") {
            return Ok(ParsedArgs::Help);
        } else if starts_with_dash(arg) {
            return Err(CliError::UnknownFlag(args[i].clone()));
        } else {
            let ghost before = st@;
            st.inputs.push(args[i].clone());
            assert(string_views(st.inputs@) =~= before.inputs.push(arg@));
            i = i + 1;
        }
    }
    if st.inputs.len() == 0 {
        Err(CliError::NoInputs)
    } else {
        Ok(ParsedArgs::Run(st))
    }
}

/// Whether a word starts with `-`.
fn starts_with_dash(s: &str) -> (r: bool)
    ensures
        r == (s@.len() > 0 && s@[0] == '-'),
{
    let c = to_chars(s);
    c.len() > 0 && c[0] == '-'
}


pub open spec fn flag_name(f: CliFlag) -> Seq<char> {
    match f {
        CliFlag::Model => "--model"@,
        CliFlag::Iterations => "--iterations"@,
        CliFlag::Warmup => "--warmup"@,
        CliFlag::Threads => "--threads"@,
        CliFlag::AudioCtx => "--audio-ctx"@,
        CliFlag::DeviceRate => "--device-rate"@,
    }
}

/// The text shown for a refused command line.
pub open spec fn error_text(e: ArgsOutcome) -> Seq<char> {
    match e {
        ArgsOutcome::MissingValue(f) => flag_name(f) + " requires a value"@,
        ArgsOutcome::InvalidValue(f, v) => "Invalid "@ + flag_name(f) + " value: "@ + v,
        ArgsOutcome::NotPositive(f) => flag_name(f) + " must be greater than 0"@,
        ArgsOutcome::UnknownFlag(a) => "Unknown flag: "@ + a,
        ArgsOutcome::NoInputs => "No input files provided"@,
        _ => Seq::empty(),
    }
}

impl CliFlag {
    /// The option as it is written on the command line.
    pub fn name(&self) -> (r: &'static str)
        ensures
            r@ == flag_name(*self),
    {
        match self {
            CliFlag::Model => "--model",
            CliFlag::Iterations => "--iterations",
            CliFlag::Warmup => "--warmup",
            CliFlag::Threads => "--threads",
            CliFlag::AudioCtx => "--audio-ctx",
            CliFlag::DeviceRate => "--device-rate",
        }
    }
}

impl CliError {
    /// The message for this refusal.
    pub fn message(&self) -> (r: String)
        ensures
            r@ == error_text(args_result_view(Err(*self))),
    {
        proof {
            reveal_strlit("");
        }
        match self {
            CliError::MissingValue(f) => concat3(f.name(), " requires a value", ""),
            CliError::InvalidValue(f, v) => {
                let head = concat3("Invalid ", f.name(), " value: ");
                concat3(head.as_str(), v.as_str(), "")
            },
            CliError::NotPositive(f) => concat3(f.name(), " must be greater than 0", ""),
            CliError::UnknownFlag(a) => concat3("Unknown flag: ", a.as_str(), ""),
            CliError::NoInputs => "No input files provided".to_string(),
        }
    }
}


/// The options of the evaluation program.
#[derive(Debug)]
pub struct EvalOptions {
    pub manifest_path: String,
    pub baseline_out: Option<String>,
    pub enable_legacy_python: bool,
}

pub ghost struct EvalScan {
    pub manifest: Option<Seq<char>>,
    pub baseline: Option<Seq<char>>,
    pub legacy: bool,
}

/// The word after index `i`, if there is one.
pub open spec fn next_word(args: Seq<Seq<char>>, i: int) -> Option<Seq<char>> {
    if i + 1 < args.len() {
        Some(args[i + 1])
    } else {
        None
    }
}

/// Reads the evaluation options from index `i` on: `--manifest` and `--baseline-out` take the
/// next word (none at the end), `--enable-legacy-python` is a switch, other words are passed
/// over; a later occurrence of an option replaces an earlier one.
pub open spec fn eval_scan_from(args: Seq<Seq<char>>, i: int, st: EvalScan) -> EvalScan
    decreases args.len() + 1 - i,
{
    if i < 0 || i >= args.len() {
        st
    } else if args[i] == "--manifest"@ {
        eval_scan_from(args, i + 2, EvalScan { manifest: next_word(args, i), ..st })
    } else if args[i] == "--baseline-out"@ {
        eval_scan_from(args, i + 2, EvalScan { baseline: next_word(args, i), ..st })
    } else if args[i] == "--enable-legacy-python"@ {
        eval_scan_from(args, i + 1, EvalScan { legacy: true, ..st })
    } else {
        eval_scan_from(args, i + 1, st)
    }
}

pub open spec fn eval_scan(args: Seq<Seq<char>>) -> EvalScan {
    eval_scan_from(args, 0, EvalScan { manifest: None, baseline: None, legacy: false })
}

pub open spec fn string_option_view(o: Option<String>) -> Option<Seq<char>> {
    match o {
        Some(s) => Some(s@),
        None => None,
    }
}

fn next_arg(args: &Vec<String>, i: usize) -> (r: Option<String>)
    requires
        i < args.len(),
    ensures
        string_option_view(r) == next_word(string_views(args@), i as int),
{
    if i + 1 < args.len() {
        Some(args[i + 1].clone())
    } else {
        None
    }
}

/// Reads the command line of the evaluation program (without the program's name); `None`
/// where no manifest path was given, which asks for the usage text.
pub fn parse_options(args: &Vec<String>) -> (r: Option<EvalOptions>)
    ensures
        match eval_scan(string_views(args@)).manifest {
            None => r is None,
            Some(m) => r matches Some(o) && o.manifest_path@ == m && string_option_view(
                o.baseline_out,
            ) == eval_scan(string_views(args@)).baseline && o.enable_legacy_python == eval_scan(
                string_views(args@),
            ).legacy,
        },
{
    let ghost a = string_views(args@);
    let mut manifest: Option<String> = None;
    let mut baseline: Option<String> = None;
    let mut legacy = false;
    let mut i: usize = 0;
    while i < args.len()
        invariant
            i <= args.len(),
            a == string_views(args@),
            eval_scan(a) == eval_scan_from(
                a,
                i as int,
                EvalScan {
                    manifest: string_option_view(manifest),
                    baseline: string_option_view(baseline),
                    legacy,
                },
            ),
        decreases args.len() - i,
    {
        let arg = args[i].as_str();
        assert(a[i as int] == arg@);
        if str_eq(arg, "--manifest") {
            manifest = next_arg(args, i);
            let ghost st = EvalScan {
                manifest: string_option_view(manifest),
                baseline: string_option_view(baseline),
                legacy,
            };
            assert(eval_scan_from(a, args.len() + 1, st) == st);
            assert(eval_scan_from(a, args.len() as int, st) == st);
            i = if i + 1 < args.len() {
                i + 2
            } else {
                args.len()
            };
        } else if str_eq(arg, "--baseline-out") {
            baseline = next_arg(args, i);
            let ghost st = EvalScan {
                manifest: string_option_view(manifest),
                baseline: string_option_view(baseline),
                legacy,
            };
            assert(eval_scan_from(a, args.len() + 1, st) == st);
            assert(eval_scan_from(a, args.len() as int, st) == st);
            i = if i + 1 < args.len() {
                i + 2
            } else {
                args.len()
            };
        } else if str_eq(arg, "--enable-legacy-python") {
            legacy = true;
            i = i + 1;
        } else {
            i = i + 1;
        }
    }
    match manifest {
        Some(m) => Some(EvalOptions { manifest_path: m, baseline_out: baseline, enable_legacy_python: legacy }),
        None => None,
    }
}


/// Samples of 16 kHz audio per unit of decoder audio context.
pub const AUDIO_CTX_SAMPLES_PER_UNIT: usize = 320;

/// The decoder audio context is a multiple of this.
pub const AUDIO_CTX_GRANULARITY: i32 = 64;

pub open spec fn audio_ctx_text(a: AudioContextStrategy) -> Seq<char> {
    match a {
        AudioContextStrategy::Adaptive => "adaptive"@,
        AudioContextStrategy::Fixed(v) => signed_decimal(v as int),
        AudioContextStrategy::ModelDefault => "default"@,
    }
}

/// How a run's audio context is reported.
pub fn audio_ctx_label(audio_ctx: AudioContextStrategy) -> (r: String)
    ensures
        r@ == audio_ctx_text(audio_ctx),
{
    match audio_ctx {
        AudioContextStrategy::Adaptive => "adaptive".to_string(),
        AudioContextStrategy::Fixed(value) => from_chars(&signed_decimal_exec(value as i64)),
        AudioContextStrategy::ModelDefault => "default".to_string(),
    }
}

/// `yes` or `no`.
pub fn yes_no(value: bool) -> (r: &'static str)
    ensures
        r@ == (if value {
            "yes"@
        } else {
            "no"@
        }),
{
    if value {
        "yes"
    } else {
        "no"
    }
}

/// The least multiple of `multiple` that is at least `value`.
pub fn round_up_to_multiple(value: i32, multiple: i32) -> (r: i32)
    requires
        0 <= value,
        0 < multiple,
        value + multiple - 1 <= i32::MAX,
    ensures
        r == ((value + multiple - 1) / (multiple as int)) * multiple,
        (r as int) % (multiple as int) == 0,
        value <= r < value + multiple,
{
    let q = (value + (multiple - 1)) / multiple;
    proof {
        let v = value as int;
        let m = multiple as int;
        assert(q * m <= v + m - 1 && v + m - 1 < q * m + m) by (nonlinear_arith)
            requires
                q == (v + m - 1) / m,
                m > 0,
                v >= 0,
        {
        }
        assert((q * m) % m == 0) by (nonlinear_arith)
            requires
                m > 0,
                q >= 0,
        {
        }
    }
    q * multiple
}

pub open spec fn round_up(value: int, multiple: int) -> int {
    ((value + multiple - 1) / multiple) * multiple
}

/// The audio context that the latency bench gives the decoder for `samples_len` samples: one
/// unit per started 320 samples, at least the machine's minimum, rounded up to a multiple of
/// 64, and at most the model's own context.
pub fn recommended_audio_ctx(n_audio_ctx: i32, adaptive_audio_ctx_min: i32, samples_len: usize) -> (r: i32)
    requires
        0 <= adaptive_audio_ctx_min <= i32::MAX - AUDIO_CTX_GRANULARITY,
        samples_len <= (i32::MAX - AUDIO_CTX_GRANULARITY) * AUDIO_CTX_SAMPLES_PER_UNIT,
    ensures
        ({
            let required = (samples_len + 319) / 320;
            let wanted = if required < adaptive_audio_ctx_min {
                adaptive_audio_ctx_min as int
            } else {
                required
            };
            let rounded = round_up(wanted, 64);
            r == if rounded < n_audio_ctx {
                rounded
            } else {
                n_audio_ctx as int
            }
        }),
{
    let required: i32 = (samples_len / AUDIO_CTX_SAMPLES_PER_UNIT + if samples_len
        % AUDIO_CTX_SAMPLES_PER_UNIT == 0 {
        0
    } else {
        1
    }) as i32;
    assert(required == (samples_len + 319) / 320);
    let wanted = if required < adaptive_audio_ctx_min {
        adaptive_audio_ctx_min
    } else {
        required
    };
    let rounded = round_up_to_multiple(wanted, AUDIO_CTX_GRANULARITY);
    if rounded < n_audio_ctx {
        rounded
    } else {
        n_audio_ctx
    }
}


/// What every accepted benchmark command line gives: at least one iteration, a device rate
/// that is not zero, a positive thread count and audio context where they are set.
pub open spec fn bench_cli_valid(v: BenchCliView) -> bool {
    &&& v.iterations >= 1
    &&& v.device_rate >= 1
    &&& (v.threads matches Some(t) ==> t > 0)
    &&& (v.audio_ctx matches AudioContextStrategy::Fixed(n) ==> n > 0)
}

proof fn lemma_bench_args_from_valid(
    tool: BenchTool,
    args: Seq<Seq<char>>,
    i: int,
    st: BenchCliView,
)
    requires
        bench_cli_valid(st),
    ensures
        bench_args_from(tool, args, i, st) matches ArgsOutcome::Run(v) ==> bench_cli_valid(v)
            && v.inputs.len() >= 1,
    decreases args.len() - i,
{
    reveal_with_fuel(bench_args_from, 2);
    if 0 <= i < args.len() {
        let arg = args[i];
        if i + 1 < args.len() {
            if arg == "--model"@ {
                lemma_bench_args_from_valid(tool, args, i + 2, BenchCliView { model: args[i + 1], ..st });
            }
            match parsed_unsigned(args[i + 1], usize::MAX as nat) {
                Some(n) => {
                    lemma_bench_args_from_valid(tool, args, i + 2, BenchCliView { warmup: n, ..st });
                    if n > 0 {
                        lemma_bench_args_from_valid(
                            tool,
                            args,
                            i + 2,
                            BenchCliView { iterations: n, ..st },
                        );
                    }
                },
                None => {},
            }
            lemma_parsed_i32_range(args[i + 1]);
            match parsed_i32(args[i + 1]) {
                Some(n) => if n > 0 {
                    lemma_bench_args_from_valid(tool, args, i + 2, BenchCliView { threads: Some(n), ..st });
                    lemma_bench_args_from_valid(
                        tool,
                        args,
                        i + 2,
                        BenchCliView { audio_ctx: AudioContextStrategy::Fixed(n as i32), ..st },
                    );
                },
                None => {},
            }
            match parsed_unsigned(args[i + 1], u32::MAX as nat) {
                Some(n) => if n > 0 {
                    lemma_bench_args_from_valid(tool, args, i + 2, BenchCliView { device_rate: n, ..st });
                },
                None => {},
            }
        }
        lemma_bench_args_from_valid(tool, args, i + 1, BenchCliView { reuse_state: false, ..st });
        lemma_bench_args_from_valid(tool, args, i + 1, BenchCliView { no_timestamps: false, ..st });
        lemma_bench_args_from_valid(
            tool,
            args,
            i + 1,
            BenchCliView { audio_ctx: AudioContextStrategy::ModelDefault, ..st },
        );
        lemma_bench_args_from_valid(tool, args, i + 1, BenchCliView { dispatch_paste: true, ..st });
        lemma_bench_args_from_valid(tool, args, i + 1, BenchCliView { inputs: st.inputs.push(arg), ..st });
    }
}

/// Every command line that a benchmark program accepts names at least one input file and
/// asks for at least one iteration, a device rate that is not zero, and a positive thread
/// count and audio context where it sets them.
pub proof fn lemma_accepted_bench_args_valid(tool: BenchTool, args: Seq<Seq<char>>)
    ensures
        bench_args(tool, args) matches ArgsOutcome::Run(v) ==> bench_cli_valid(v)
            && v.inputs.len() >= 1,
{
    lemma_bench_args_from_valid(tool, args, 0, bench_defaults(tool));
}


/// The options of the vision helper.
#[derive(Debug)]
pub struct VisionHelperArgs {
    pub image_path: String,
    pub max_tokens: usize,
}

/// The answer is at most this many tokens unless the command line says otherwise.
pub const DEFAULT_MAX_TOKENS: usize = 512;

pub ghost enum VisionArgsOutcome {
    Run(Seq<char>, nat),
    MissingImageValue,
    MissingMaxTokensValue,
    InvalidMaxTokens(Seq<char>, IntErrorKind),
    UnknownArgument(Seq<char>),
    MissingImage,
}

/// Reads the vision helper's arguments from index `i` on: `--image` and `--max-tokens` each
/// take the next word, a later one replacing an earlier one; anything else is refused; an
/// image is required.
pub open spec fn vision_args_from(
    args: Seq<Seq<char>>,
    i: int,
    image: Option<Seq<char>>,
    max_tokens: nat,
) -> VisionArgsOutcome
    decreases args.len() - i,
{
    if i < 0 || i >= args.len() {
        match image {
            Some(p) => VisionArgsOutcome::Run(p, max_tokens),
            None => VisionArgsOutcome::MissingImage,
        }
    } else if args[i] == "--image"@ {
        if i + 1 >= args.len() {
            VisionArgsOutcome::MissingImageValue
        } else {
            vision_args_from(args, i + 2, Some(args[i + 1]), max_tokens)
        }
    } else if args[i] == "--max-tokens"@ {
        if i + 1 >= args.len() {
            VisionArgsOutcome::MissingMaxTokensValue
        } else {
            match unsigned_result(args[i + 1], usize::MAX as nat) {
                Ok(n) => vision_args_from(args, i + 2, image, n),
                Err(e) => VisionArgsOutcome::InvalidMaxTokens(args[i + 1], e),
            }
        }
    } else {
        VisionArgsOutcome::UnknownArgument(args[i])
    }
}

pub open spec fn vision_args(args: Seq<Seq<char>>) -> VisionArgsOutcome {
    vision_args_from(args, 0, None, DEFAULT_MAX_TOKENS as nat)
}

/// The message of a refusal.
pub open spec fn vision_args_error_text(o: VisionArgsOutcome) -> Seq<char> {
    match o {
        VisionArgsOutcome::MissingImageValue => "Missing value for --image"@,
        VisionArgsOutcome::MissingMaxTokensValue => "Missing value for --max-tokens"@,
        VisionArgsOutcome::InvalidMaxTokens(v, e) => "Invalid --max-tokens value `"@ + v + "`: "@
            + int_error_text(e),
        VisionArgsOutcome::UnknownArgument(a) => "Unknown argument: "@ + a,
        VisionArgsOutcome::MissingImage => "Missing required --image argument"@,
        VisionArgsOutcome::Run(_, _) => Seq::empty(),
    }
}

/// Reads the command line of the vision helper (without the program's name); a refusal comes
/// with its message.
pub fn parse_vision_helper_args(args: &Vec<String>) -> (r: Result<VisionHelperArgs, String>)
    ensures
        match vision_args(string_views(args@)) {
            VisionArgsOutcome::Run(p, n) => r matches Ok(a) && a.image_path@ == p && a.max_tokens
                == n,
            other => r matches Err(m) && m@ == vision_args_error_text(other),
        },
{
    let ghost a = string_views(args@);
    let mut image: Option<String> = None;
    let mut max_tokens: usize = DEFAULT_MAX_TOKENS;
    let mut i: usize = 0;
    while i < args.len()
        invariant
            i <= args.len(),
            a == string_views(args@),
            vision_args(a) == vision_args_from(
                a,
                i as int,
                string_option_view(image),
                max_tokens as nat,
            ),
        decreases args.len() - i,
    {
        proof {
            reveal_strlit("");
        }
        let arg = args[i].as_str();
        assert(a[i as int] == arg@);
        if str_eq(arg, "--image") {
            if i + 1 >= args.len() {
                return Err("Missing value for --image".to_string());
            }
            assert(a[i + 1] == args@[i + 1]@);
            image = Some(args[i + 1].clone());
            i = i + 2;
        } else if str_eq(arg, "--max-tokens") {
            if i + 1 >= args.len() {
                return Err("Missing value for --max-tokens".to_string());
            }
            let value = args[i + 1].as_str();
            assert(a[i + 1] == value@);
            match parse_unsigned_detailed(value, usize::MAX as u64) {
                Ok(n) => {
                    max_tokens = n as usize;
                },
                Err(e) => {
                    let head = concat3("Invalid --max-tokens value `", value, "`: ");
                    return Err(concat3(head.as_str(), e.message(), ""));
                },
            }
            i = i + 2;
        } else {
            return Err(concat3("Unknown argument: ", arg, ""));
        }
    }
    match image {
        Some(p) => Ok(VisionHelperArgs { image_path: p, max_tokens }),
        None => Err("Missing required --image argument".to_string()),
    }
}


/// Where the image goes in the vision prompt.
pub const MEDIA_MARKER: &'static str = "<__media__>";

/// The decoder threads of the vision helper: one less than the cores the machine offers (4
/// where it does not say), at least 2 and at most 8.
pub fn recommended_thread_count(available: Option<usize>) -> (r: i32)
    ensures
        ({
            let a = match available {
                Some(n) => n as int,
                None => 4,
            };
            let less = if a >= 1 {
                a - 1
            } else {
                0
            };
            r == if less < 2 {
                2
            } else if less > 8 {
                8
            } else {
                less
            }
        }),
{
    let a = match available {
        Some(n) => n,
        None => 4,
    };
    let less = if a >= 1 {
        a - 1
    } else {
        0
    };
    if less < 2 {
        2
    } else if less > 8 {
        8
    } else {
        less as i32
    }
}

/// The prompt of the vision helper: the question read from standard input, trimmed, after the
/// image marker and a line break; an empty question is refused.
pub fn vision_prompt(question: &str) -> (r: Result<String, String>)
    ensures
        crate::text::trim(question@).len() == 0 ==> (r matches Err(m) && m@
            == "Vision helper received an empty prompt."@),
        crate::text::trim(question@).len() > 0 ==> (r matches Ok(p) && p@ == MEDIA_MARKER@
            + "\n"@ + crate::text::trim(question@)),
{
    let t = crate::text::trimmed(&to_chars(question), crate::text::CharClass::Whitespace);
    if t.len() == 0 {
        return Err("Vision helper received an empty prompt.".to_string());
    }
    let body = from_chars(&t);
    Ok(concat3(MEDIA_MARKER, "\n", body.as_str()))
}

} // verus!
