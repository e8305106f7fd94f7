use screamer::cli::{
    recommended_thread_count, vision_prompt,
    parse_unsigned_detailed, parse_vision_helper_args, IntErrorKind,
    audio_ctx_label, parse_args, parse_i32, parse_options, parse_u32, parse_usize,
    recommended_audio_ctx, round_up_to_multiple, yes_no, AudioContextStrategy, BenchTool,
    CliError, CliFlag, ParsedArgs,
};

fn words(list: &[&str]) -> Vec<String> {
    list.iter().map(|s| s.to_string()).collect()
}

fn run(tool: BenchTool, list: &[&str]) -> screamer::cli::BenchCli {
    match parse_args(tool, &words(list)) {
        Ok(ParsedArgs::Run(cli)) => cli,
        other => panic!("expected a run, got {:?}", other),
    }
}

fn refusal(tool: BenchTool, list: &[&str]) -> CliError {
    match parse_args(tool, &words(list)) {
        Err(e) => e,
        other => panic!("expected a refusal, got {:?}", other),
    }
}

#[test]
fn unsigned_numbers_parse_like_str_parse() {
    assert_eq!(parse_usize("15"), Some(15));
    assert_eq!(parse_usize("+5"), Some(5));
    assert_eq!(parse_usize("007"), Some(7));
    assert_eq!(parse_usize(""), None);
    assert_eq!(parse_usize("+"), None);
    assert_eq!(parse_usize("-1"), None);
    assert_eq!(parse_usize("1 "), None);
    assert_eq!(parse_usize("18446744073709551616"), None);
    assert_eq!(parse_u32("4294967295"), Some(u32::MAX));
    assert_eq!(parse_u32("4294967296"), None);
}

#[test]
fn signed_numbers_parse_like_str_parse() {
    assert_eq!(parse_i32("-2147483648"), Some(i32::MIN));
    assert_eq!(parse_i32("2147483647"), Some(i32::MAX));
    assert_eq!(parse_i32("2147483648"), None);
    assert_eq!(parse_i32("-2147483649"), None);
    assert_eq!(parse_i32("+12"), Some(12));
    assert_eq!(parse_i32("-0"), Some(0));
    assert_eq!(parse_i32("-"), None);
    assert_eq!(parse_i32("--1"), None);
}

#[test]
fn bench_defaults_and_values() {
    let cli = run(BenchTool::DirectWhisper, &["--model", "small", "--iterations", "3", "a.f32"]);
    assert_eq!(cli.model, "small");
    assert_eq!(cli.iterations, 3);
    assert_eq!(cli.warmup, 2);
    assert_eq!(cli.inputs, words(&["a.f32"]));

    let cli = run(BenchTool::OuterWall, &["a.f32", "--warmup", "0", "b.f32"]);
    assert_eq!(cli.model, "base");
    assert_eq!(cli.iterations, 15);
    assert_eq!(cli.warmup, 0);
    assert_eq!(cli.inputs, words(&["a.f32", "b.f32"]));
}

#[test]
fn latency_bench_switches() {
    let cli = run(
        BenchTool::LatencyBench,
        &["--threads", "4", "--fresh-state", "--timestamps", "--full-audio-ctx", "x.f32"],
    );
    assert_eq!(cli.threads, Some(4));
    assert!(!cli.reuse_state);
    assert!(!cli.no_timestamps);
    assert_eq!(cli.audio_ctx, AudioContextStrategy::ModelDefault);

    let cli = run(BenchTool::LatencyBench, &["--audio-ctx", "768", "x.f32"]);
    assert_eq!(cli.audio_ctx, AudioContextStrategy::Fixed(768));
    assert!(cli.reuse_state);
    assert!(cli.no_timestamps);
    assert_eq!(cli.threads, None);

    let e = refusal(BenchTool::LatencyBench, &["--audio-ctx", "0", "x.f32"]);
    assert!(matches!(e, CliError::NotPositive(CliFlag::AudioCtx)));
    assert_eq!(e.message(), "--audio-ctx must be greater than 0");
    let e = refusal(BenchTool::LatencyBench, &["--threads", "-2", "x.f32"]);
    assert_eq!(e.message(), "--threads must be greater than 0");
}

#[test]
fn app_path_options() {
    let cli = run(BenchTool::AppPath, &["x.f32"]);
    assert_eq!(cli.iterations, 10);
    assert_eq!(cli.device_rate, 48_000);
    assert!(!cli.dispatch_paste);

    let cli = run(BenchTool::AppPath, &["--device-rate", "44100", "--dispatch-paste", "x.f32"]);
    assert_eq!(cli.device_rate, 44_100);
    assert!(cli.dispatch_paste);

    let e = refusal(BenchTool::AppPath, &["--device-rate", "0", "x.f32"]);
    assert_eq!(e.message(), "--device-rate must be greater than 0");
}

#[test]
fn refused_command_lines() {
    let e = refusal(BenchTool::DirectWhisper, &["--iterations", "0", "a"]);
    assert!(matches!(e, CliError::NotPositive(CliFlag::Iterations)));
    assert_eq!(e.message(), "--iterations must be greater than 0");

    let e = refusal(BenchTool::DirectWhisper, &["--iterations", "x", "a"]);
    assert_eq!(e.message(), "Invalid --iterations value: x");

    let e = refusal(BenchTool::DirectWhisper, &["a", "--model"]);
    assert!(matches!(e, CliError::MissingValue(CliFlag::Model)));
    assert_eq!(e.message(), "--model requires a value");

    let e = refusal(BenchTool::DirectWhisper, &["--threads", "4", "a"]);
    assert_eq!(e.message(), "Unknown flag: --threads");

    let e = refusal(BenchTool::OuterWall, &["--warmup", "2"]);
    assert!(matches!(e, CliError::NoInputs));
    assert_eq!(e.message(), "No input files provided");
}

#[test]
fn help_wins_over_later_errors() {
    assert!(matches!(
        parse_args(BenchTool::LatencyBench, &words(&["-h", "--bogus"])),
        Ok(ParsedArgs::Help)
    ));
    assert!(matches!(
        parse_args(BenchTool::AppPath, &words(&["--help"])),
        Ok(ParsedArgs::Help)
    ));
    let e = refusal(BenchTool::AppPath, &["--bogus", "--help"]);
    assert_eq!(e.message(), "Unknown flag: --bogus");
}

#[test]
fn evaluation_options() {
    let o = parse_options(&words(&[
        "--manifest",
        "cases.json",
        "--baseline-out",
        "out.json",
        "--enable-legacy-python",
        "extra",
    ]))
    .unwrap();
    assert_eq!(o.manifest_path, "cases.json");
    assert_eq!(o.baseline_out, Some("out.json".to_string()));
    assert!(o.enable_legacy_python);

    let o = parse_options(&words(&["--manifest", "a", "--manifest", "b"])).unwrap();
    assert_eq!(o.manifest_path, "b");
    assert_eq!(o.baseline_out, None);
    assert!(!o.enable_legacy_python);

    assert!(parse_options(&words(&["--baseline-out", "b"])).is_none());
    assert!(parse_options(&words(&["--manifest", "a", "--manifest"])).is_none());
}

#[test]
fn audio_context_rounding() {
    assert_eq!(round_up_to_multiple(0, 64), 0);
    assert_eq!(round_up_to_multiple(64, 64), 64);
    assert_eq!(round_up_to_multiple(65, 64), 128);
    assert_eq!(recommended_audio_ctx(1500, 256, 16_000), 256);
    assert_eq!(recommended_audio_ctx(1500, 256, 160_000), 512);
    assert_eq!(recommended_audio_ctx(300, 0, 160_000), 300);
    assert_eq!(recommended_audio_ctx(1500, 0, 321), 64);
}

#[test]
fn labels() {
    assert_eq!(audio_ctx_label(AudioContextStrategy::Adaptive), "adaptive");
    assert_eq!(audio_ctx_label(AudioContextStrategy::ModelDefault), "default");
    assert_eq!(audio_ctx_label(AudioContextStrategy::Fixed(768)), "768");
    assert_eq!(audio_ctx_label(AudioContextStrategy::Fixed(-3)), "-3");
    assert_eq!(yes_no(true), "yes");
    assert_eq!(yes_no(false), "no");
}

#[test]
fn refusals_of_a_number_say_why() {
    assert_eq!(parse_unsigned_detailed("", u64::MAX), Err(IntErrorKind::Empty));
    assert_eq!(parse_unsigned_detailed("+", u64::MAX), Err(IntErrorKind::InvalidDigit));
    assert_eq!(parse_unsigned_detailed("-5", u64::MAX), Err(IntErrorKind::InvalidDigit));
    assert_eq!(parse_unsigned_detailed("12a", u64::MAX), Err(IntErrorKind::InvalidDigit));
    assert_eq!(
        parse_unsigned_detailed("18446744073709551616x", u64::MAX),
        Err(IntErrorKind::PosOverflow)
    );
    assert_eq!(parse_unsigned_detailed("300", 255), Err(IntErrorKind::PosOverflow));
    assert_eq!(parse_unsigned_detailed("+255", 255), Ok(255));
    assert_eq!(IntErrorKind::Empty.message(), "cannot parse integer from empty string");
    // The messages are those of std.
    assert_eq!(
        "x".parse::<usize>().unwrap_err().to_string(),
        IntErrorKind::InvalidDigit.message()
    );
    assert_eq!(
        "".parse::<usize>().unwrap_err().to_string(),
        IntErrorKind::Empty.message()
    );
    assert_eq!(
        "99999999999999999999999".parse::<usize>().unwrap_err().to_string(),
        IntErrorKind::PosOverflow.message()
    );
}

#[test]
fn vision_helper_arguments() {
    let a = parse_vision_helper_args(&words(&["--image", "shot.png"])).unwrap();
    assert_eq!(a.image_path, "shot.png");
    assert_eq!(a.max_tokens, 512);
    let a = parse_vision_helper_args(&words(&["--max-tokens", "64", "--image", "a", "--image", "b"]))
        .unwrap();
    assert_eq!(a.image_path, "b");
    assert_eq!(a.max_tokens, 64);

    let err = |list: &[&str]| parse_vision_helper_args(&words(list)).unwrap_err();
    assert_eq!(
        err(&["--max-tokens", "x", "--image", "a"]),
        "Invalid --max-tokens value `x`: invalid digit found in string"
    );
    assert_eq!(
        err(&["--max-tokens", ""]),
        "Invalid --max-tokens value ``: cannot parse integer from empty string"
    );
    assert_eq!(
        err(&["--max-tokens", "99999999999999999999999"]),
        "Invalid --max-tokens value `99999999999999999999999`: number too large to fit in target type"
    );
    assert_eq!(err(&["--bogus"]), "Unknown argument: --bogus");
    assert_eq!(err(&[]), "Missing required --image argument");
    assert_eq!(err(&["--image"]), "Missing value for --image");
    assert_eq!(err(&["--image", "a", "--max-tokens"]), "Missing value for --max-tokens");
}

#[test]
fn vision_helper_threads_and_prompt() {
    assert_eq!(recommended_thread_count(None), 3);
    assert_eq!(recommended_thread_count(Some(1)), 2);
    assert_eq!(recommended_thread_count(Some(0)), 2);
    assert_eq!(recommended_thread_count(Some(6)), 5);
    assert_eq!(recommended_thread_count(Some(64)), 8);

    assert_eq!(vision_prompt("  where is the menu? \n").unwrap(), "<__media__>\nwhere is the menu?");
    assert_eq!(vision_prompt(" \n\t").unwrap_err(), "Vision helper received an empty prompt.");
}
