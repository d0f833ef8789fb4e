use vstd::prelude::*;
use vstd::string::StringExecFns;
use crate::text::{chars_of, replace_all, spec_replace};

verus! {

/// Seconds allowed to one run of a driver on one input.
pub const EXECUTION_TIMEOUT: u64 = 180;

/// Seconds allowed to one whole sanitization.
pub const SANITIZATION_TIMEOUT: u64 = 1200;

/// Least seconds of fuzzing in the Fuzz stage.
pub const MIN_FUZZ_TIME: u64 = 60;

/// Most seconds of fuzzing.
pub const MAX_FUZZ_TIME: u64 = 600;

/// Attempts at a request to the model before giving up.
pub const RETRY_N: u8 = 5;

/// Most tokens asked of the model per completion.
pub const MAX_TOKENS: u16 = 2048;

/// Seconds allowed to connect to the model's service.
pub const CONNECT_TIMEOUT: u64 = 1;

/// Prefix of the flag that points the minimize profile at the coverage ignore list.
pub const MINIMIZE_FLAG_PREFIX: &'static str = "-fsanitize-coverage-ignorelist=";

/// The model settings read from the environment at start-up; the prices stay
/// with the caller.
#[derive(Clone, Debug, PartialEq, Eq)]
pub struct OpenAIEnv {
    pub model_name: String,
    pub context_limit: Option<u32>,
    pub proxy_base: Option<String>,
}

/// Whether `c` is an ASCII decimal digit.
pub open spec fn is_digit(c: char) -> bool {
    '0' <= c && c <= '9'
}

/// The value of the decimal digits `s`.
pub open spec fn digits_value(s: Seq<char>) -> nat
    decreases s.len(),
{
    if s.len() == 0 {
        0
    } else {
        digits_value(s.drop_last()) * 10 + (s.last() as nat - '0' as nat) as nat
    }
}

/// The digits of a decimal number: `s` itself, or `s` without a leading `+`.
pub open spec fn unsigned_digits(s: Seq<char>) -> Seq<char> {
    if s.len() > 0 && s[0] == '+' {
        s.subrange(1, s.len() as int)
    } else {
        s
    }
}

/// The unsigned 32-bit number that `s` writes in decimal: an optional `+`,
/// then one or more digits, of a value that fits.
pub open spec fn spec_parse_u32(s: Seq<char>) -> Option<u32> {
    let d = unsigned_digits(s);
    if d.len() > 0 && (forall|i: int| 0 <= i < d.len() ==> is_digit(#[trigger] d[i]))
        && digits_value(d) <= u32::MAX {
        Some(digits_value(d) as u32)
    } else {
        None
    }
}

proof fn lemma_digits_value_grows(s: Seq<char>, k: int)
    requires
        0 <= k <= s.len(),
        forall|i: int| 0 <= i < s.len() ==> is_digit(#[trigger] s[i]),
    ensures
        digits_value(s.subrange(0, k)) <= digits_value(s),
    decreases s.len() - k,
{
    if k == s.len() {
        assert(s.subrange(0, k) =~= s);
    } else {
        lemma_digits_value_grows(s, k + 1);
        assert(s.subrange(0, k + 1).drop_last() =~= s.subrange(0, k));
        assert(is_digit(s[k]));
    }
}

/// The unsigned 32-bit number written in decimal by `cs[lo..hi]`.
pub fn parse_u32_chars(cs: &Vec<char>, lo: usize, hi: usize) -> (r: Option<u32>)
    requires
        lo <= hi <= cs@.len(),
    ensures
        r == spec_parse_u32(cs@.subrange(lo as int, hi as int)),
{
    let ghost s = cs@.subrange(lo as int, hi as int);
    let start: usize = if lo < hi && cs[lo] == '+' { lo + 1 } else { lo };
    let ghost d = unsigned_digits(s);
    assert(d =~= cs@.subrange(start as int, hi as int));
    if start == hi {
        return None;
    }
    let mut v: u64 = 0;
    let mut i: usize = start;
    while i < hi
        invariant
            lo <= start <= i <= hi <= cs@.len(),
            s == cs@.subrange(lo as int, hi as int),
            d == cs@.subrange(start as int, hi as int),
            d == unsigned_digits(s),
            forall|k: int| 0 <= k < i - start ==> is_digit(#[trigger] d[k]),
            v == digits_value(d.subrange(0, i - start)),
            v <= u32::MAX,
        decreases hi - i,
    {
        let c = cs[i];
        if c < '0' || c > '9' {
            assert(d[i - start] == c);
            assert(!is_digit(d[i - start]));
            return None;
        }
        let digit = (c as u32 - '0' as u32) as u64;
        assert(d.subrange(0, i + 1 - start).drop_last() =~= d.subrange(0, i - start));
        assert(d.subrange(0, i + 1 - start).last() == c);
        let next = v * 10 + digit;
        if next > u32::MAX as u64 {
            proof {
                if forall|k: int| 0 <= k < d.len() ==> is_digit(#[trigger] d[k]) {
                    lemma_digits_value_grows(d, i + 1 - start);
                }
            }
            return None;
        }
        v = next;
        i = i + 1;
    }
    assert(d.subrange(0, d.len() as int) =~= d);
    Some(v as u32)
}

/// The unsigned 32-bit number written in decimal by `s`.
pub fn parse_u32(s: &str) -> (r: Option<u32>)
    ensures
        r == spec_parse_u32(s@),
{
    let cs = chars_of(s);
    assert(cs@.subrange(0, cs@.len() as int) =~= s@);
    parse_u32_chars(&cs, 0, cs.len())
}

/// The model settings from the raw values of `OPENAI_MODEL_NAME`,
/// `OPENAI_CONTEXT_LIMIT` and `OPENAI_PROXY_BASE`: `None` when the model name
/// is unset; a context limit that is not a decimal number counts as unset.
pub fn init_openai_env(model: Option<String>, context_limit: Option<String>, proxy_base: Option<String>) -> (r: Option<OpenAIEnv>)
    ensures
        r is Some <==> model is Some,
        r matches Some(e) ==> {
            &&& e.model_name == model->0
            &&& e.proxy_base == proxy_base
            &&& e.context_limit == match context_limit {
                Some(s) => spec_parse_u32(s@),
                None => None,
            }
        },
{
    match model {
        None => None,
        Some(m) => {
            let limit = match &context_limit {
                Some(s) => parse_u32(s.as_str()),
                None => None,
            };
            Some(OpenAIEnv { model_name: m, context_limit: limit, proxy_base })
        },
    }
}

/// The model's name.
pub fn get_openai_model_name(env: &OpenAIEnv) -> (r: String)
    ensures
        r == env.model_name,
{
    env.model_name.clone()
}

/// The model's context limit, where one was set.
pub fn get_openai_context_limit(env: &OpenAIEnv) -> (r: Option<u32>)
    ensures
        r == env.context_limit,
{
    env.context_limit
}

/// The proxy base address, where one was set.
pub fn get_openai_proxy(env: &OpenAIEnv) -> (r: Option<String>)
    ensures
        r == env.proxy_base,
{
    match &env.proxy_base {
        Some(p) => Some(p.clone()),
        None => None,
    }
}

/// The run's settings, built once at start-up and passed by reference.
#[derive(Clone, Debug, PartialEq, Eq)]
pub struct Config {
    /// The library to fuzz.
    pub target: String,
    /// Outputs sampled per request to the model.
    pub n_sample: u8,
    pub disable_power_schedule: bool,
    /// Accepted drivers that finish a round.
    pub fuzz_round_succ: usize,
    /// Rounds without new coverage that count as convergence.
    pub fuzz_converge_round: usize,
    /// Candidates checked together in one batch.
    pub cores: usize,
    pub max_cores: usize,
    pub exponent_branch: bool,
    /// Whether to recheck accepted seeds after convergence.
    pub recheck: bool,
    pub fuzzer_run: bool,
}

impl Config {
    /// The settings used by tests for `target`.
    pub fn init_test(target: &str) -> (r: Config)
        ensures
            r.target@ == target@,
            r.n_sample == 10,
            r.cores == 10,
            r.max_cores == 0,
            r.fuzz_round_succ == 1,
            r.fuzz_converge_round == 10,
            !r.exponent_branch && !r.recheck && !r.fuzzer_run && !r.disable_power_schedule,
    {
        Config {
            target: target.to_owned(),
            n_sample: 10,
            disable_power_schedule: false,
            fuzz_round_succ: 1,
            fuzz_converge_round: 10,
            cores: 10,
            max_cores: 0,
            exponent_branch: false,
            recheck: false,
            fuzzer_run: false,
        }
    }
}

/// The name of the library being fuzzed.
pub fn get_library_name(config: &Config) -> (r: String)
    ensures
        r == config.target,
{
    config.target.clone()
}

/// Outputs sampled per request.
pub fn get_sample_num(config: &Config) -> (r: u8)
    ensures
        r == config.n_sample,
{
    config.n_sample
}

/// The flag that points the minimize build at the coverage ignore list `bl_file`.
pub fn get_minimize_compile_flag(bl_file: &str) -> (r: String)
    ensures
        r@ == MINIMIZE_FLAG_PREFIX@ + bl_file@,
{
    let mut r = String::from_str(MINIMIZE_FLAG_PREFIX);
    r.append(bl_file);
    r
}

/// A start-up check that failed before any candidate ran.
#[derive(Clone, Debug, PartialEq, Eq)]
pub enum ConfigError {
    /// The library's entry in the data directory is missing.
    MissingData(String),
    /// The library's build is missing.
    MissingBuild(String),
}

impl ConfigError {
    pub open spec fn spec_message(&self) -> Seq<char> {
        match self {
            ConfigError::MissingData(p) => "Cannot find the entry "@ + p@
                + " in `data` dir, please prepare it in anvance."@,
            ConfigError::MissingBuild(p) => "Cannot find the build library "@ + p@
                + " in `output/build` dir, please build it by build.sh in anvance."@,
        }
    }

    /// The text shown for the error.
    pub fn message(&self) -> (r: String)
        ensures
            r@ == self.spec_message(),
    {
        match self {
            ConfigError::MissingData(p) => {
                let mut r = String::from_str("Cannot find the entry ");
                r.append(p.as_str());
                r.append(" in `data` dir, please prepare it in anvance.");
                r
            },
            ConfigError::MissingBuild(p) => {
                let mut r = String::from_str("Cannot find the build library ");
                r.append(p.as_str());
                r.append(" in `output/build` dir, please build it by build.sh in anvance.");
                r
            },
        }
    }
}

/// The start-up checks of project `project_name`: its data directory must
/// exist, then its built library.
pub fn parse_config(project_name: &str, data_exists: bool, lib_exists: bool) -> (r: Result<(), ConfigError>)
    ensures
        r is Ok <==> data_exists && lib_exists,
        !data_exists ==> (r matches Err(ConfigError::MissingData(p)) && p@ == project_name@),
        data_exists && !lib_exists ==> (r matches Err(ConfigError::MissingBuild(p)) && p@ == project_name@),
{
    if !data_exists {
        return Err(ConfigError::MissingData(project_name.to_owned()));
    }
    if !lib_exists {
        return Err(ConfigError::MissingBuild(project_name.to_owned()));
    }
    Ok(())
}

/// The settings of one target library.
#[derive(Clone, Debug, Default, PartialEq, Eq)]
pub struct LibConfig {
    /// The project name used by the build script.
    pub project_name: String,
    /// The static library's name.
    pub static_lib_name: String,
    /// The shared library's name.
    pub dyn_lib_name: String,
    /// Functions that drivers may not call.
    pub ban: Option<Vec<String>>,
    /// Whether the fuzzer input ends with a null byte.
    pub null_term: Option<bool>,
    /// Extra flags for the compiler.
    pub extra_c_flags: Option<Vec<String>>,
    /// Whether a landmark corpus input is shown in the prompt.
    pub landmark: Option<bool>,
    /// Types always put into the prompt.
    pub force_types: Option<Vec<String>>,
    /// Whether the library is fuzzed in fork mode.
    pub fuzz_fork: Option<bool>,
    /// A short description of the library.
    pub desc: Option<String>,
    /// Statements that initialize the library.
    pub spec: Option<String>,
    /// A file copied into each work directory before execution.
    pub init_file: Option<String>,
    /// Extra sanitizer options.
    pub asan_option: Option<String>,
    /// Whether drivers read their input from a file instead of `fmemopen`.
    pub disable_fmemopen: Option<bool>,
    /// Memory limit handed to the fuzzer.
    pub rss_limit_mb: Option<usize>,
}

impl LibConfig {
    /// Whether fuzzer inputs end with a null byte; unset means no.
    pub fn should_terminate_with_null(&self) -> (r: bool)
        ensures
            r == (self.null_term == Some(true)),
    {
        match self.null_term {
            Some(term) => term,
            None => false,
        }
    }
}

/// The system-role prompt for generation.
pub const SYSTEM_GEN_TEMPLATE: &'static str = "Act as a C++ langauge Developer, write a fuzz driver that follow user's instructions.
The prototype of fuzz dirver is: `extern \"C\" int LLVMFuzzerTestOneInput(const uint8_t data, size_t size)`.
\n";

/// The user-role prompt for generation; `{project}` stands for the library.
pub const USER_GEN_TEMPLATE: &'static str = "Create a C++ language program step by step by using {project} library APIs and following the instructions below:
1. Here are several APIs in {project}. Specific an event that those APIs could achieve together, if the input is a byte stream of {project}' output data.
{combinations};
2. Complete the LLVMFuzzerTestOneInput function to achieve this event by using those APIs. Each API should be called at least once, if possible.
3. The input data and its size are passed as parameters of LLVMFuzzerTestOneInput: `const uint8_t *data` and `size_t size`. They must be consumed by the {project} APIs.
4. Once you need a `FILE *` variable to read the input data, using `FILE * in_file = fmemopen((void *)data, size, \"rb\")` to produce a `FILE *` variable.
   Once you need a `FILE *` variable to write output data, using `FILE * out_file = fopen(\"output_file\", \"wb\")` to produce a `FILE *` variable.
5. Once you need a `int` type file descriptor, using `fileno(in_file)` or `fileno(out_file)` to produce a file descriptor for reading or writing. 
6. Once you just need a string of file name, directly using \"input_file\" or \"output_file\" as the file name.
7. Release all allocated resources before return.
";

/// The placeholder for the library's name in the templates.
pub const PROJECT_PLACEHOLDER: &'static str = "{project}";

/// How the generation prompt opens its input in memory.
pub const FMEMOPEN_CALL: &'static str = "fmemopen((void *)data, size, \"rb\")";

/// How a driver opens its input where `fmemopen` is disabled.
pub const FOPEN_CALL: &'static str = "fopen(\"input_file\", \"rb\")";

/// The system-role prompt for generation.
pub fn get_sys_gen_template() -> (r: String)
    ensures
        r@ == SYSTEM_GEN_TEMPLATE@,
{
    String::from_str(SYSTEM_GEN_TEMPLATE)
}

/// The user-role generation prompt for library `target`.
pub fn get_user_gen_template(target: &str) -> (r: String)
    ensures
        r@ == spec_replace(USER_GEN_TEMPLATE@, PROJECT_PLACEHOLDER@, target@),
{
    replace_all(USER_GEN_TEMPLATE, PROJECT_PLACEHOLDER, target)
}

/// The user-role chat prompt: the generation prompt for `target`, opened by the
/// landmark input where there is one, closed by the library's initialization
/// statements where it has them, and reading its input from a file where the
/// library disables `fmemopen`.
pub open spec fn spec_chat_template(target: Seq<char>, landmark: Option<Seq<char>>, lib: LibConfig) -> Seq<char> {
    let t0 = spec_replace(USER_GEN_TEMPLATE@, PROJECT_PLACEHOLDER@, target);
    let t1 = match landmark {
        Some(l) => "The input data is: "@ + l + "\n\n\n."@ + t0,
        None => t0,
    };
    let t2 = match lib.spec {
        Some(init) => t1 + "\nThe begining of the fuzz driver is: \n"@ + init@,
        None => t1,
    };
    if lib.disable_fmemopen == Some(true) {
        spec_replace(t2, FMEMOPEN_CALL@, FOPEN_CALL@)
    } else {
        t2
    }
}

/// The user-role chat prompt for `target` with the library's settings `lib`
/// and its landmark input, where one is shown.
pub fn get_user_chat_template(target: &str, landmark: Option<&str>, lib: &LibConfig) -> (r: String)
    ensures
        r@ == spec_chat_template(target@, match landmark {
            Some(l) => Some(l@),
            None => None,
        }, *lib),
{
    let base = get_user_gen_template(target);
    let mut t = match landmark {
        Some(l) => {
            let mut p = String::from_str("The input data is: ");
            p.append(l);
            p.append("\n\n\n.");
            p.append(base.as_str());
            p
        },
        None => base,
    };
    match &lib.spec {
        Some(init) => {
            t.append("\nThe begining of the fuzz driver is: \n");
            t.append(init.as_str());
        },
        None => {},
    }
    match lib.disable_fmemopen {
        Some(true) => replace_all(t.as_str(), FMEMOPEN_CALL, FOPEN_CALL),
        _ => t,
    }
}

} // verus!
