use llm_fuzz_sanitize::config::{
    get_library_name, get_minimize_compile_flag, get_openai_context_limit, get_openai_model_name,
    get_openai_proxy, get_sample_num, get_sys_gen_template, get_user_chat_template,
    get_user_gen_template, init_openai_env, parse_config, parse_u32, Config, ConfigError, LibConfig,
    SYSTEM_GEN_TEMPLATE,
};
use llm_fuzz_sanitize::cost::{print_san_cost, StageCost};
use llm_fuzz_sanitize::openai::{
    _get_openai_base, extract_programs, get_usage_log_path, retry_step, strip_code_prefix,
    strip_code_wrapper, Critical, RetryStep,
};
use llm_fuzz_sanitize::text::replace_all;

#[test]
fn strip_wrapper_with_event_and_tag() {
    let answer = "  Parse then print.\n```cpp\nint main() {}\n```\nDone.  ";
    assert_eq!(strip_code_wrapper(answer), "/*Parse then print.\n*/\n\nint main() {}\n");
}

#[test]
fn strip_wrapper_without_fence() {
    assert_eq!(strip_code_wrapper("\n int x;\t"), "/**/\nint x;");
}

#[test]
fn strip_wrapper_keeps_inner_fences() {
    let answer = "```c\na\n```\nb\n```";
    assert_eq!(strip_code_wrapper(answer), "/**/\n\na\n```\nb\n");
}

#[test]
fn strip_wrapper_single_fence_keeps_rest() {
    assert_eq!(strip_code_wrapper("note ```C++\nx"), "/*note */\n\nx");
}

#[test]
fn strip_prefix_only_at_start() {
    assert_eq!(strip_code_prefix("```cpp\nx", "cpp"), "\nx");
    assert_eq!(strip_code_prefix(" ```cpp", "cpp"), " ```cpp");
    assert_eq!(strip_code_prefix("``", "cpp"), "``");
    assert_eq!(extract_programs(&vec!["```\nq```".to_string()]), vec!["/**/\nq".to_string()]);
}

#[test]
fn retry_decisions() {
    assert_eq!(retry_step(0, Critical::Normal), RetryStep::Accept);
    assert_eq!(retry_step(0, Critical::Critical), RetryStep::Fail);
    assert_eq!(retry_step(3, Critical::NonCritical), RetryStep::Retry);
    assert_eq!(retry_step(4, Critical::NonCritical), RetryStep::GiveUp);
    assert_eq!(retry_step(255, Critical::NonCritical), RetryStep::GiveUp);
}

#[test]
fn usage_paths_and_base() {
    assert_eq!(get_usage_log_path("output/cJSON/misc"), "output/cJSON/misc/openai_usage");
    assert_eq!(_get_openai_base(), "https://api.openai.com/v1");
}

#[test]
fn decimal_parsing() {
    assert_eq!(parse_u32("4096"), Some(4096));
    assert_eq!(parse_u32("+7"), Some(7));
    assert_eq!(parse_u32("4294967295"), Some(u32::MAX));
    assert_eq!(parse_u32("4294967296"), None);
    assert_eq!(parse_u32(""), None);
    assert_eq!(parse_u32("+"), None);
    assert_eq!(parse_u32("-1"), None);
    assert_eq!(parse_u32("12a"), None);
    for s in ["0", "00012", "99999999999", "+0", " 1", "٣"] {
        assert_eq!(parse_u32(s), s.parse::<u32>().ok(), "{s}");
    }
}

#[test]
fn openai_env_from_raw_values() {
    assert!(init_openai_env(None, Some("1".into()), None).is_none());
    let env = init_openai_env(Some("gpt-4".into()), Some("8192".into()), Some("http://proxy".into())).unwrap();
    assert_eq!(get_openai_model_name(&env), "gpt-4");
    assert_eq!(get_openai_context_limit(&env), Some(8192));
    assert_eq!(get_openai_proxy(&env), Some("http://proxy".to_string()));
    let env = init_openai_env(Some("m".into()), Some("lots".into()), None).unwrap();
    assert_eq!(get_openai_context_limit(&env), None);
    assert_eq!(get_openai_proxy(&env), None);
}

#[test]
fn config_accessors_and_checks() {
    let config = Config::init_test("cJSON");
    assert_eq!(get_library_name(&config), "cJSON");
    assert_eq!(get_sample_num(&config), 10);
    assert_eq!(config.cores, 10);
    assert_eq!(parse_config("cJSON", true, true), Ok(()));
    let e = parse_config("cJSON", false, true).unwrap_err();
    assert_eq!(e, ConfigError::MissingData("cJSON".into()));
    assert_eq!(e.message(), "Cannot find the entry cJSON in `data` dir, please prepare it in anvance.");
    let e = parse_config("cJSON", true, false).unwrap_err();
    assert_eq!(e.message(), "Cannot find the build library cJSON in `output/build` dir, please build it by build.sh in anvance.");
    assert_eq!(get_minimize_compile_flag("bl.txt"), "-fsanitize-coverage-ignorelist=bl.txt");
}

#[test]
fn null_termination_flag() {
    let mut lib = LibConfig::default();
    assert!(!lib.should_terminate_with_null());
    lib.null_term = Some(false);
    assert!(!lib.should_terminate_with_null());
    lib.null_term = Some(true);
    assert!(lib.should_terminate_with_null());
}

#[test]
fn templates() {
    assert_eq!(get_sys_gen_template(), SYSTEM_GEN_TEMPLATE);
    let user = get_user_gen_template("zlib");
    assert!(!user.contains("{project}"));
    assert!(user.starts_with("Create a C++ language program step by step by using zlib library APIs"));
    assert!(user.contains("{combinations}"));
    let lib = LibConfig { spec: Some("init();".into()), disable_fmemopen: Some(true), ..LibConfig::default() };
    let chat = get_user_chat_template("zlib", Some("abc"), &lib);
    assert!(chat.starts_with("The input data is: abc\n\n\n.Create"));
    assert!(chat.ends_with("\nThe begining of the fuzz driver is: \ninit();"));
    assert!(chat.contains("fopen(\"input_file\", \"rb\")"));
    assert!(!chat.contains("fmemopen"));
    let plain = get_user_chat_template("zlib", None, &LibConfig::default());
    assert_eq!(plain, user);
}

#[test]
fn replace_is_left_to_right() {
    assert_eq!(replace_all("aaa", "aa", "b"), "ba");
    assert_eq!(replace_all("abc", "", "x"), "abc");
    assert_eq!(replace_all("x{p}y{p}", "{p}", "Q"), "xQyQ");
}

#[test]
fn slowest_candidate_cost() {
    let c = |s: u64, f: u64| StageCost { syntax: s, link: 1, execute: 1, fuzz: f, coverage: 1, update: 1 };
    let costs = vec![c(1, 10), c(2, 60), c(3, 59)];
    assert_eq!(print_san_cost(&costs), Some(c(2, 60)));
    let tie = vec![c(5, 1), c(1, 5)];
    assert_eq!(print_san_cost(&tie), Some(c(5, 1)));
    let zero = StageCost { syntax: 0, link: 0, execute: 0, fuzz: 0, coverage: 0, update: 0 };
    assert_eq!(print_san_cost(&vec![zero]), None);
    assert_eq!(print_san_cost(&vec![]), None);
    assert_eq!(c(u64::MAX, u64::MAX).total(), 2 * u64::MAX as u128 + 4);
}
