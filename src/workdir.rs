use vstd::prelude::*;
use vstd::string::StringExecFns;
use crate::error::{ProgramError, keeps_workdir, spec_keeps_workdir};
use crate::text::{rfind_char, spec_rfind_char, lemma_rfind_char_bounds};

verus! {

/// The extension of a file name: what follows its last dot, where that dot is
/// not the name's first character; `..` has none.
pub open spec fn spec_extension(name: Seq<char>) -> Option<Seq<char>> {
    let d = spec_rfind_char(name, '.', 0, name.len() as int);
    if name == ".."@ || d <= 0 {
        None
    } else {
        Some(name.subrange(d + 1, name.len() as int))
    }
}

/// Files that survive cleanup: logs, binaries, sources, coverage profiles and
/// stage timings.
pub open spec fn spec_is_retained(name: Seq<char>) -> bool {
    match spec_extension(name) {
        Some(e) => e == "log"@ || e == "out"@ || e == "cc"@ || e == "profdata"@ || e == "cost"@,
        None => false,
    }
}

/// The names among `names` that cleanup deletes, in their order.
pub open spec fn spec_to_delete(names: Seq<Seq<char>>) -> Seq<Seq<char>>
    decreases names.len(),
{
    if names.len() == 0 {
        Seq::empty()
    } else {
        let rest = spec_to_delete(names.drop_last());
        if spec_is_retained(names.last()) {
            rest
        } else {
            rest.push(names.last())
        }
    }
}

/// The extension of a file name.
pub fn extension(name: &str) -> (r: Option<String>)
    ensures
        r matches Some(e) ==> spec_extension(name@) == Some(e@),
        r is None ==> spec_extension(name@) is None,
{
    let n = name.unicode_len();
    let dd = String::from_str("..");
    let owned = name.to_owned();
    if owned == dd {
        return None;
    }
    proof {
        lemma_rfind_char_bounds(name@, '.', 0, n as int);
    }
    match rfind_char(name, '.', 0, n) {
        Some(d) => {
            if d == 0 {
                None
            } else {
                Some(name.substring_char(d + 1, n).to_owned())
            }
        },
        None => None,
    }
}

/// Whether cleanup keeps a file of this name.
pub fn is_retained(name: &str) -> (r: bool)
    ensures
        r == spec_is_retained(name@),
{
    match extension(name) {
        Some(e) => {
            e == String::from_str("log") || e == String::from_str("out") || e == String::from_str("cc")
                || e == String::from_str("profdata") || e == String::from_str("cost")
        },
        None => false,
    }
}

/// The entries of a work directory that cleanup deletes: all but those with a
/// retained extension.
pub fn cleanup_sanitize_dir(names: &Vec<String>) -> (r: Vec<String>)
    ensures
        r@.map_values(|s: String| s@) == spec_to_delete(names@.map_values(|s: String| s@)),
{
    let mut r: Vec<String> = Vec::new();
    let mut i: usize = 0;
    while i < names.len()
        invariant
            i <= names@.len(),
            r@.map_values(|s: String| s@) == spec_to_delete(
                names@.subrange(0, i as int).map_values(|s: String| s@),
            ),
        decreases names.len() - i,
    {
        let ghost prefix = names@.subrange(0, i + 1).map_values(|s: String| s@);
        assert(prefix.drop_last() =~= names@.subrange(0, i as int).map_values(|s: String| s@));
        assert(prefix.last() == names@[i as int]@);
        if !is_retained(names[i].as_str()) {
            r.push(names[i].clone());
        }
        assert(r@.map_values(|s: String| s@) =~= spec_to_delete(prefix));
        i = i + 1;
    }
    assert(names@.subrange(0, names@.len() as int) =~= names@);
    r
}

/// Cleanup leaves only retained files and deletes only the others.
pub proof fn lemma_cleanup_leaves_retained(names: Seq<Seq<char>>)
    ensures
        forall|k: int| 0 <= k < names.len() && !spec_to_delete(names).contains(names[k])
            ==> spec_is_retained(#[trigger] names[k]),
        forall|k: int| 0 <= k < spec_to_delete(names).len()
            ==> !spec_is_retained(#[trigger] spec_to_delete(names)[k]),
    decreases names.len(),
{
    if names.len() > 0 {
        let p = names.drop_last();
        lemma_cleanup_leaves_retained(p);
        let rest = spec_to_delete(p);
        assert forall|k: int| 0 <= k < names.len() && !spec_to_delete(names).contains(names[k])
            implies spec_is_retained(#[trigger] names[k]) by {
            if k < names.len() - 1 {
                assert(names[k] == p[k]);
                if !spec_is_retained(names.last()) {
                    if rest.contains(p[k]) {
                        let w = choose|w: int| 0 <= w < rest.len() && rest[w] == p[k];
                        assert(rest.push(names.last())[w] == p[k]);
                    }
                }
            } else {
                if !spec_is_retained(names.last()) {
                    assert(rest.push(names.last())[rest.len() as int] == names.last());
                }
            }
        }
    }
}

/// What cleanup does to a candidate's work directory once its verdict is known.
#[derive(Clone, Debug, PartialEq, Eq)]
pub struct CleanupPlan {
    /// The entries to delete.
    pub delete: Vec<String>,
    /// Whether the whole directory goes afterwards.
    pub remove_workdir: bool,
}

/// The cleanup of a work directory with entries `names` after `verdict`: the
/// entries without a retained extension go, and the directory itself goes
/// unless the verdict is acceptance, a hang or a fuzzer failure.
pub fn cleanup_plan(verdict: &Option<ProgramError>, names: &Vec<String>) -> (r: CleanupPlan)
    ensures
        r.delete@.map_values(|s: String| s@) == spec_to_delete(names@.map_values(|s: String| s@)),
        r.remove_workdir == !spec_keeps_workdir(*verdict),
{
    CleanupPlan { delete: cleanup_sanitize_dir(names), remove_workdir: !keeps_workdir(verdict) }
}

/// `dir` joined with the relative name `name`, with one separator between.
pub open spec fn spec_join(dir: Seq<char>, name: Seq<char>) -> Seq<char> {
    if dir.len() == 0 {
        name
    } else if dir.last() == '/' {
        dir + name
    } else {
        dir + "/"@ + name
    }
}

/// `dir` joined with the relative name `name`.
pub fn join_path(dir: &str, name: &str) -> (r: String)
    ensures
        r@ == spec_join(dir@, name@),
{
    let n = dir.unicode_len();
    if n == 0 {
        return name.to_owned();
    }
    let mut r = dir.to_owned();
    if dir.get_char(n - 1) != '/' {
        r.append("/");
    }
    r.append(name);
    r
}

/// `path` with the extension of its last component set to `ext`: what follows
/// the last dot that is not the first character of that component is replaced,
/// or `.ext` is added where there is none.
pub open spec fn spec_with_extension(path: Seq<char>, ext: Seq<char>) -> Seq<char> {
    let start = spec_rfind_char(path, '/', 0, path.len() as int) + 1;
    let d = spec_rfind_char(path, '.', start, path.len() as int);
    let stem = if d > start { path.subrange(0, d) } else { path };
    stem + "."@ + ext
}

/// `path` with the extension of its last component set to `ext`.
pub fn with_extension(path: &str, ext: &str) -> (r: String)
    ensures
        r@ == spec_with_extension(path@, ext@),
{
    let n = path.unicode_len();
    proof {
        lemma_rfind_char_bounds(path@, '/', 0, n as int);
    }
    let start = match rfind_char(path, '/', 0, n) {
        Some(k) => k + 1,
        None => 0,
    };
    proof {
        lemma_rfind_char_bounds(path@, '.', start as int, n as int);
    }
    let mut r = match rfind_char(path, '.', start, n) {
        Some(d) => {
            if d > start {
                path.substring_char(0, d).to_owned()
            } else {
                path.to_owned()
            }
        },
        None => path.to_owned(),
    };
    r.append(".");
    r.append(ext);
    r
}

/// The paths of a candidate's work directory.
#[derive(Clone, Debug, PartialEq, Eq)]
pub struct WorkDir {
    pub dir: String,
}

impl WorkDir {
    pub fn new(dir: String) -> (r: WorkDir)
        ensures
            r.dir == dir,
    {
        WorkDir { dir }
    }

    /// The candidate's own corpus directory.
    pub fn corpus_dir(&self) -> (r: String)
        ensures
            r@ == spec_join(self.dir@, "corpus"@),
    {
        join_path(self.dir.as_str(), "corpus")
    }

    /// The control file of the fuzzer's merge mode.
    pub fn merge_control_file(&self) -> (r: String)
        ensures
            r@ == spec_join(self.dir@, "merge_control_file"@),
    {
        join_path(self.dir.as_str(), "merge_control_file")
    }
}

} // verus!
