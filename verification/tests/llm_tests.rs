use ghosttype::llm::{
    BackendState, decimal_string, few_shot_prompt, fixed_decimal_string, is_worth_generating, llama_cli_args,
    parse_llama_output, same_text, CompletionCollector, LlmConfig, Which,
};

#[test]
fn test_which_from_str() {
    assert!(matches!(Which::from_str("0.5b"), Ok(Which::W0_5b)));
    assert!(matches!(Which::from_str("1.5b"), Ok(Which::W1_5b)));
    assert!(matches!(Which::from_str("7b"), Ok(Which::W7b)));
    assert!(Which::from_str("invalid").is_err());
}

#[test]
fn test_parse_llama_output() {
    let output = "status\n";
    assert_eq!(parse_llama_output(output), "status");

    let output_with_metadata = "llama_model_loader: loaded meta data\nstatus\n";
    assert_eq!(parse_llama_output(output_with_metadata), "status");

    let empty = "";
    assert_eq!(parse_llama_output(empty), "");
}

#[test]
fn unknown_variant_keeps_the_name() {
    assert_eq!(Which::from_str("13b").unwrap_err().name, "13b");
    assert!(Which::from_str("").is_err());
    assert!(Which::from_str("7B").is_err());
    assert!(same_text("7b", "7b"));
    assert!(!same_text("7b", "7"));
    assert!(!same_text("7b", "7c"));
}

#[test]
fn variants_name_their_files() {
    assert_eq!(Which::W0_5b.repo(), "unsloth/Qwen2.5-Coder-0.5B-Instruct-GGUF");
    assert_eq!(Which::W1_5b.repo(), "Qwen/Qwen2-1.5B-Instruct-GGUF");
    assert_eq!(Which::W7b.repo(), "Qwen/Qwen2-7B-Instruct-GGUF");
    assert_eq!(Which::W0_5b.filename(), "Qwen2.5-Coder-0.5B-Instruct-Q4_K_M.gguf");
    assert_eq!(Which::W1_5b.filename(), "qwen2-1_5b-instruct-q4_0.gguf");
    assert_eq!(Which::W7b.filename(), "qwen2-7b-instruct-q4_0.gguf");
    assert_eq!(Which::W0_5b.tokenizer_repo(), "Qwen/Qwen2.5-Coder-0.5B-Instruct");
    assert_eq!(Which::W1_5b.tokenizer_repo(), "Qwen/Qwen2-1.5B-Instruct");
    assert_eq!(Which::W7b.tokenizer_repo(), "Qwen/Qwen2-7B-Instruct");
}

#[test]
fn noise_lines_are_passed_over() {
    assert_eq!(parse_llama_output("sampling: greedy\nLog start\n  commit  \nnext"), "commit");
    assert_eq!(parse_llama_output("eval time = 3 ms / 2 runs\n12 tok/s\npush"), "push");
    assert_eq!(parse_llama_output("\n\n   \n"), "");
    assert_eq!(parse_llama_output("llama_a\nsampling b\n"), "llama_a");
    assert_eq!(parse_llama_output("  \nLogin\n"), "Login");
    assert_eq!(parse_llama_output("status\r\nrest"), "status");
}

#[test]
fn numbers_are_written_in_decimal() {
    assert_eq!(decimal_string(0), "0");
    assert_eq!(decimal_string(7), "7");
    assert_eq!(decimal_string(10), "10");
    assert_eq!(decimal_string(299792458), "299792458");
    assert_eq!(decimal_string(u64::MAX), u64::MAX.to_string());
    assert_eq!(fixed_decimal_string(50), "0.050");
    assert_eq!(fixed_decimal_string(0), "0.000");
    assert_eq!(fixed_decimal_string(800), "0.800");
    assert_eq!(fixed_decimal_string(12_345), "12.345");
    assert_eq!(fixed_decimal_string(50).parse::<f64>().unwrap(), 0.05);
}

#[test]
fn generator_is_run_with_the_configured_arguments() {
    let config = LlmConfig::for_model("/models/q.gguf".to_string());
    assert_eq!(config.temperature, 50);
    assert_eq!(config.max_tokens, 3);
    assert_eq!(config.seed, 299792458);
    assert_eq!(few_shot_prompt("git c"), "git s→status\ndocker p→ps\nnpm i→install\ngit c→");
    let args = llama_cli_args(&config, "git c", 299792460);
    let expected = vec![
        "-m", "/models/q.gguf", "-p", "git s→status\ndocker p→ps\nnpm i→install\ngit c→", "-n",
        "3", "--temp", "0.050", "--top-k", "1", "--seed", "299792460", "--no-display-prompt",
        "--reverse-prompt", "\n", "-no-cnv",
    ];
    assert_eq!(args, expected);
    let plain = LlmConfig::default();
    assert!(plain.model_path.is_empty());
    assert_eq!(plain.seed, 299792458);
}

#[test]
fn short_inputs_are_not_worth_generating() {
    assert!(!is_worth_generating(""));
    assert!(!is_worth_generating(" g "));
    assert!(is_worth_generating("gi"));
    assert!(is_worth_generating(" é "));
    assert!(!is_worth_generating("   "));
}

#[test]
fn collector_keeps_five_distinct_completions() {
    let mut collector = CompletionCollector::new();
    let mut seeds = Vec::new();
    let outputs = ["one", " one ", "two", "", "three", "four", "five", "six"];
    let mut runs = 0;
    while let Some(seed) = collector.next_seed(100) {
        seeds.push(seed);
        collector.offer(Some(outputs[runs]));
        runs += 1;
    }
    assert_eq!(runs, 7);
    assert_eq!(seeds, vec![100, 101, 102, 103, 104, 105, 106]);
    let texts: Vec<String> = collector.into_suggestions().into_iter().map(|s| s.text).collect();
    assert_eq!(texts, vec!["one", "two", "three", "four", "five"]);
    collector.offer(Some("seven"));
    assert_eq!(collector.into_suggestions().len(), 5);
}

#[test]
fn collector_gives_up_after_ten_runs() {
    let mut collector = CompletionCollector::new();
    let mut runs = 0;
    while collector.next_seed(u64::MAX - 1).is_some() {
        if runs % 2 == 0 {
            collector.offer(None);
        } else {
            collector.offer(Some("same"));
        }
        runs += 1;
    }
    assert_eq!(runs, 10);
    let found = collector.into_suggestions();
    assert_eq!(found.len(), 1);
    assert_eq!(found[0].text, "same");
    assert_eq!(found[0].score, 1000);
    assert_eq!(found[0].source.as_deref(), Some("llm"));
    let fresh = CompletionCollector::new();
    assert_eq!(fresh.next_seed(u64::MAX), Some(u64::MAX));
    let mut wrapped = CompletionCollector::new();
    wrapped.offer(None);
    wrapped.offer(None);
    assert_eq!(wrapped.next_seed(u64::MAX), Some(1));
}

#[test]
fn backend_is_looked_for_once() {
    let fresh = BackendState::Untried;
    assert!(fresh.wants_init());
    assert!(!fresh.usable());
    let failed = fresh.after_init(false);
    assert_eq!(failed, BackendState::Failed);
    assert!(!failed.wants_init());
    assert_eq!(failed.after_init(true), BackendState::Failed);
    let ready = fresh.after_init(true);
    assert!(ready.usable());
    assert_eq!(ready.after_init(false), BackendState::Ready);
}
