use vstd::prelude::*;
use vstd::string::StringExecFns;
use crate::executor::views;

verus! {

/// The build profiles of a candidate driver.
#[derive(Clone, Copy, Debug, PartialEq, Eq, Structural)]
pub enum Compile {
    /// libFuzzer with the address and undefined-behaviour sanitizers.
    FUZZER,
    /// libFuzzer with source-based coverage.
    COVERAGE,
    /// The fuzzer profile restricted by the coverage ignore list; used to merge.
    Minimize,
}

/// The flags of the fuzzer profile: libFuzzer, `-O1 -g`, the address and
/// undefined-behaviour sanitizers, and zero-initialized automatic variables.
pub open spec fn spec_fuzzer_flags() -> Seq<Seq<char>> {
    seq![
        "-fsanitize=fuzzer"@,
        "-O1"@,
        "-g"@,
        "-fsanitize=address,undefined"@,
        "-ftrivial-auto-var-init=zero"@,
        "-enable-trivial-auto-var-init-zero-knowing-it-will-be-removed-from-clang"@,
    ]
}

/// The fuzzer profile's flags with undefined behaviour made to trap and abort.
pub open spec fn spec_sanitizer_flags() -> Seq<Seq<char>> {
    seq![
        "-fsanitize=fuzzer"@,
        "-g"@,
        "-O1"@,
        "-fsanitize=address,undefined"@,
        "-ftrivial-auto-var-init=zero"@,
        "-enable-trivial-auto-var-init-zero-knowing-it-will-be-removed-from-clang"@,
        "-fsanitize-trap=undefined"@,
        "-fno-sanitize-recover=undefined"@,
    ]
}

/// The flags of the coverage profile.
pub open spec fn spec_coverage_flags() -> Seq<Seq<char>> {
    seq![
        "-g"@,
        "-fsanitize=fuzzer"@,
        "-fprofile-instr-generate"@,
        "-fcoverage-mapping"@,
        "-Wl,--no-as-needed"@,
        "-Wl,-ldl"@,
        "-Wl,-lm"@,
        "-Wno-unused-command-line-argument"@,
        "-ftrivial-auto-var-init=zero"@,
        "-enable-trivial-auto-var-init-zero-knowing-it-will-be-removed-from-clang"@,
    ]
}

/// The flags of a profile; the minimize profile adds `minimize_flag`, the flag
/// that points at the library's coverage ignore list.
pub open spec fn spec_profile_flags(profile: Compile, minimize_flag: Seq<char>) -> Seq<Seq<char>> {
    match profile {
        Compile::FUZZER => spec_fuzzer_flags(),
        Compile::COVERAGE => spec_coverage_flags(),
        Compile::Minimize => spec_fuzzer_flags().push(minimize_flag),
    }
}

fn fuzzer_flags() -> (r: Vec<String>)
    ensures
        views(r@) == spec_fuzzer_flags(),
{
    let mut r: Vec<String> = Vec::new();
    r.push(String::from_str("-fsanitize=fuzzer"));
    r.push(String::from_str("-O1"));
    r.push(String::from_str("-g"));
    r.push(String::from_str("-fsanitize=address,undefined"));
    r.push(String::from_str("-ftrivial-auto-var-init=zero"));
    r.push(String::from_str("-enable-trivial-auto-var-init-zero-knowing-it-will-be-removed-from-clang"));
    assert(views(r@) =~= spec_fuzzer_flags());
    r
}

/// The fuzzer profile's flags with undefined behaviour made to trap and abort.
pub fn sanitizer_flags() -> (r: Vec<String>)
    ensures
        views(r@) == spec_sanitizer_flags(),
{
    let mut r: Vec<String> = Vec::new();
    r.push(String::from_str("-fsanitize=fuzzer"));
    r.push(String::from_str("-g"));
    r.push(String::from_str("-O1"));
    r.push(String::from_str("-fsanitize=address,undefined"));
    r.push(String::from_str("-ftrivial-auto-var-init=zero"));
    r.push(String::from_str("-enable-trivial-auto-var-init-zero-knowing-it-will-be-removed-from-clang"));
    r.push(String::from_str("-fsanitize-trap=undefined"));
    r.push(String::from_str("-fno-sanitize-recover=undefined"));
    assert(views(r@) =~= spec_sanitizer_flags());
    r
}

fn coverage_flags() -> (r: Vec<String>)
    ensures
        views(r@) == spec_coverage_flags(),
{
    let mut r: Vec<String> = Vec::new();
    r.push(String::from_str("-g"));
    r.push(String::from_str("-fsanitize=fuzzer"));
    r.push(String::from_str("-fprofile-instr-generate"));
    r.push(String::from_str("-fcoverage-mapping"));
    r.push(String::from_str("-Wl,--no-as-needed"));
    r.push(String::from_str("-Wl,-ldl"));
    r.push(String::from_str("-Wl,-lm"));
    r.push(String::from_str("-Wno-unused-command-line-argument"));
    r.push(String::from_str("-ftrivial-auto-var-init=zero"));
    r.push(String::from_str("-enable-trivial-auto-var-init-zero-knowing-it-will-be-removed-from-clang"));
    assert(views(r@) =~= spec_coverage_flags());
    r
}

/// The compiler flags of `profile`. The fuzzer profile uses the published
/// fuzzer flag list (`spec_fuzzer_flags`), without the flags that make
/// undefined behaviour trap; that longer list is `sanitizer_flags`, for builds
/// that want a trapping report of undefined behaviour.
pub fn profile_flags(profile: Compile, minimize_flag: &str) -> (r: Vec<String>)
    ensures
        views(r@) == spec_profile_flags(profile, minimize_flag@),
{
    match profile {
        Compile::FUZZER => fuzzer_flags(),
        Compile::COVERAGE => coverage_flags(),
        Compile::Minimize => {
            let mut r = fuzzer_flags();
            r.push(String::from_str(minimize_flag));
            assert(views(r@) =~= spec_fuzzer_flags().push(minimize_flag@));
            r
        },
    }
}

/// The sanitizer options of every run of a candidate: a detected defect exits
/// with 168, and mismatched allocation pairs are not reported.
pub fn asan_options() -> (r: String)
    ensures
        r@ == "exitcode=168:alloc_dealloc_mismatch=0"@,
{
    String::from_str("exitcode=168:alloc_dealloc_mismatch=0")
}

} // verus!
