use vstd::prelude::*;

use crate::text::{append_text, owned, push_char};

verus! {

/// Manifest of a plugin, read from the `plugin.toml` file in its directory.
#[derive(Debug)]
pub struct PluginManifest {
    pub name: String,
    pub id: String,
    pub version: String,
    pub api_version: String,
    /// The executable, as the `exec` key of the manifest names it.
    pub executable: String,
    pub permissions: Vec<String>,
}

/// Model of a [`PluginManifest`].
pub struct ManifestView {
    pub name: Seq<char>,
    pub id: Seq<char>,
    pub version: Seq<char>,
    pub api_version: Seq<char>,
    pub executable: Seq<char>,
    pub permissions: Seq<Seq<char>>,
}

pub open spec fn texts_model(v: Seq<String>) -> Seq<Seq<char>> {
    Seq::new(v.len(), |i: int| v[i]@)
}

impl View for PluginManifest {
    type V = ManifestView;

    open spec fn view(&self) -> ManifestView {
        ManifestView {
            name: self.name@,
            id: self.id@,
            version: self.version@,
            api_version: self.api_version@,
            executable: self.executable@,
            permissions: texts_model(self.permissions@),
        }
    }
}

/// A copy of a list of texts.
pub fn copy_texts(v: &Vec<String>) -> (r: Vec<String>)
    ensures
        texts_model(r@) == texts_model(v@),
{
    let mut out: Vec<String> = Vec::new();
    let mut i: usize = 0;
    while i < v.len()
        invariant
            i <= v@.len(),
            out@.len() == i,
            forall|j: int| 0 <= j < i ==> (#[trigger] out@[j])@ == v@[j]@,
        decreases v.len() - i,
    {
        out.push(owned(v[i].as_str()));
        i = i + 1;
    }
    assert(texts_model(out@) =~= texts_model(v@));
    out
}

impl PluginManifest {
    /// A copy of this manifest.
    pub fn copy(&self) -> (r: PluginManifest)
        ensures
            r@ == self@,
    {
        PluginManifest {
            name: owned(self.name.as_str()),
            id: owned(self.id.as_str()),
            version: owned(self.version.as_str()),
            api_version: owned(self.api_version.as_str()),
            executable: owned(self.executable.as_str()),
            permissions: copy_texts(&self.permissions),
        }
    }
}

/// Status of a plugin managed by the host.
#[derive(Debug, Clone, Copy, PartialEq, Eq, Structural)]
pub enum PluginStatus {
    Discovered,
    Running,
    Stopped,
}

// ---------------------------------------------------------------------------
// Paths
// ---------------------------------------------------------------------------

/// `rel` resolved against `base`, as `Path::join` does with `/` as separator: an absolute
/// `rel` stands alone, and one separator goes between the two parts.
pub open spec fn join_path(base: Seq<char>, rel: Seq<char>) -> Seq<char> {
    if rel.len() > 0 && rel[0] == '/' {
        rel
    } else if base.len() == 0 {
        rel
    } else if base[base.len() - 1] == '/' {
        base + rel
    } else {
        base.push('/') + rel
    }
}

/// Resolves `rel` against `base`.
pub fn join(base: &str, rel: &str) -> (r: String)
    ensures
        r@ == join_path(base@, rel@),
{
    let rel_len = rel.unicode_len();
    let base_len = base.unicode_len();
    if rel_len > 0 && rel.get_char(0) == '/' {
        owned(rel)
    } else if base_len == 0 {
        owned(rel)
    } else {
        let mut r = owned(base);
        if base.get_char(base_len - 1) != '/' {
            push_char(&mut r, '/');
        }
        append_text(&mut r, rel);
        r
    }
}

/// Whether `s` holds a directory separator.
pub open spec fn has_separator(s: Seq<char>) -> bool {
    s.contains('/')
}

fn holds_separator(s: &str) -> (r: bool)
    ensures
        r == has_separator(s@),
{
    let n = s.unicode_len();
    let mut i: usize = 0;
    while i < n
        invariant
            n == s@.len(),
            i <= n,
            forall|j: int| 0 <= j < i ==> s@[j] != '/',
        decreases n - i,
    {
        if s.get_char(i) == '/' {
            return true;
        }
        i = i + 1;
    }
    false
}

/// Whether `s` begins with `prefix`.
pub open spec fn starts_with(s: Seq<char>, prefix: Seq<char>) -> bool {
    prefix.len() <= s.len() && s.subrange(0, prefix.len() as int) == prefix
}

/// Whether `s` begins with `prefix`.
pub fn text_starts_with(s: &str, prefix: &str) -> (r: bool)
    ensures
        r == starts_with(s@, prefix@),
{
    let n = prefix.unicode_len();
    if n > s.unicode_len() {
        return false;
    }
    let mut i: usize = 0;
    while i < n
        invariant
            n == prefix@.len(),
            n <= s@.len(),
            i <= n,
            forall|j: int| 0 <= j < i ==> s@[j] == prefix@[j],
        decreases n - i,
    {
        if s.get_char(i) != prefix.get_char(i) {
            assert(s@.subrange(0, n as int)[i as int] != prefix@[i as int]);
            return false;
        }
        i = i + 1;
    }
    assert(s@.subrange(0, n as int) =~= prefix@);
    true
}

// ---------------------------------------------------------------------------
// Executable resolution
// ---------------------------------------------------------------------------

/// Where to find a plugin's executable.
#[derive(Debug, PartialEq, Eq)]
pub enum ExecPlan {
    /// A path that names the executable itself.
    Direct(String),
    /// A build artifact: `primary` if it exists, else the first entry of `build_dir`, then of
    /// `deps_dir`, whose file name begins with `name`; failing all, `primary`.
    Search { name: String, primary: String, build_dir: String, deps_dir: String },
}

/// The build output directory under a workspace root.
pub open spec fn build_dir_of(root: Seq<char>) -> Seq<char> {
    join_path(join_path(root, "target"@), "debug"@)
}

/// Whether `plan` is how a manifest's `program` is found from directory `dir`, the workspace
/// root, and the platform's executable suffix.
pub open spec fn plan_of(
    program: Seq<char>,
    dir: Seq<char>,
    root: Seq<char>,
    suffix: Seq<char>,
    plan: ExecPlan,
) -> bool {
    if has_separator(program) {
        plan == ExecPlan::Direct(plan->Direct_0) && plan->Direct_0@ == join_path(dir, program)
    } else {
        match plan {
            ExecPlan::Search { name, primary, build_dir, deps_dir } => {
                &&& name@ == program + suffix
                &&& build_dir@ == build_dir_of(root)
                &&& primary@ == join_path(build_dir_of(root), program + suffix)
                &&& deps_dir@ == join_path(build_dir_of(root), "deps"@)
            },
            _ => false,
        }
    }
}

/// How to find the executable named by `program` for a plugin in directory `dir`.
pub fn exec_plan(program: &str, dir: &str, workspace_root: &str, exe_suffix: &str) -> (r: ExecPlan)
    ensures
        plan_of(program@, dir@, workspace_root@, exe_suffix@, r),
{
    if holds_separator(program) {
        ExecPlan::Direct(join(dir, program))
    } else {
        let mut name = owned(program);
        append_text(&mut name, exe_suffix);
        let target = join(workspace_root, "target");
        let build_dir = join(target.as_str(), "debug");
        let primary = join(build_dir.as_str(), name.as_str());
        let deps_dir = join(build_dir.as_str(), "deps");
        ExecPlan::Search { name, primary, build_dir, deps_dir }
    }
}

/// The first of `entries` that begins with `prefix`.
pub open spec fn first_with_prefix(entries: Seq<Seq<char>>, prefix: Seq<char>) -> Option<int> {
    if exists|i: int| 0 <= i < entries.len() && starts_with(entries[i], prefix) {
        Some(
            choose|i: int|
                0 <= i < entries.len() && starts_with(entries[i], prefix) && forall|j: int|
                    0 <= j < i ==> !starts_with(entries[j], prefix),
        )
    } else {
        None
    }
}

fn find_prefixed(entries: &Vec<String>, prefix: &str) -> (r: Option<usize>)
    ensures
        match r {
            Some(i) => i < entries@.len() && starts_with(entries@[i as int]@, prefix@) && forall|
                j: int,
            |
                0 <= j < i ==> !starts_with(entries@[j]@, prefix@),
            None => forall|j: int| 0 <= j < entries@.len() ==> !starts_with(entries@[j]@, prefix@),
        },
{
    let mut i: usize = 0;
    while i < entries.len()
        invariant
            i <= entries@.len(),
            forall|j: int| 0 <= j < i ==> !starts_with(entries@[j]@, prefix@),
        decreases entries.len() - i,
    {
        if text_starts_with(entries[i].as_str(), prefix) {
            return Some(i);
        }
        i = i + 1;
    }
    None
}

/// The path of the executable a search plan settles on, given whether its primary path exists
/// and the file names found in its build and dependency directories, in listing order.
pub open spec fn search_result(
    name: Seq<char>,
    primary: Seq<char>,
    build_dir: Seq<char>,
    deps_dir: Seq<char>,
    primary_exists: bool,
    build_entries: Seq<Seq<char>>,
    deps_entries: Seq<Seq<char>>,
) -> Seq<char> {
    if primary_exists {
        primary
    } else if first_with_prefix(build_entries, name) is Some {
        join_path(build_dir, build_entries[first_with_prefix(build_entries, name)->0])
    } else if first_with_prefix(deps_entries, name) is Some {
        join_path(deps_dir, deps_entries[first_with_prefix(deps_entries, name)->0])
    } else {
        primary
    }
}

proof fn lemma_first_with_prefix(entries: Seq<Seq<char>>, prefix: Seq<char>, i: int)
    requires
        0 <= i < entries.len(),
        starts_with(entries[i], prefix),
        forall|j: int| 0 <= j < i ==> !starts_with(entries[j], prefix),
    ensures
        first_with_prefix(entries, prefix) == Some(i),
{
    let k = first_with_prefix(entries, prefix)->0;
    assert(0 <= k < entries.len() && starts_with(entries[k], prefix));
    if k < i {
        assert(!starts_with(entries[k], prefix));
    }
    if k > i {
        assert(!starts_with(entries[i], prefix));
    }
}

/// Settles a search plan on one path.
pub fn pick_executable(
    plan: &ExecPlan,
    primary_exists: bool,
    build_entries: &Vec<String>,
    deps_entries: &Vec<String>,
) -> (r: String)
    ensures
        match plan {
            ExecPlan::Direct(p) => r@ == p@,
            ExecPlan::Search { name, primary, build_dir, deps_dir } => r@ == search_result(
                name@,
                primary@,
                build_dir@,
                deps_dir@,
                primary_exists,
                texts_model(build_entries@),
                texts_model(deps_entries@),
            ),
        },
{
    match plan {
        ExecPlan::Direct(p) => owned(p.as_str()),
        ExecPlan::Search { name, primary, build_dir, deps_dir } => {
            let ghost b = texts_model(build_entries@);
            let ghost d = texts_model(deps_entries@);
            if primary_exists {
                return owned(primary.as_str());
            }
            match find_prefixed(build_entries, name.as_str()) {
                Some(i) => {
                    proof {
                        lemma_first_with_prefix(b, name@, i as int);
                    }
                    return join(build_dir.as_str(), build_entries[i].as_str());
                },
                None => {
                    assert(first_with_prefix(b, name@) is None);
                },
            }
            match find_prefixed(deps_entries, name.as_str()) {
                Some(i) => {
                    proof {
                        lemma_first_with_prefix(d, name@, i as int);
                    }
                    join(deps_dir.as_str(), deps_entries[i].as_str())
                },
                None => {
                    assert(first_with_prefix(d, name@) is None);
                    owned(primary.as_str())
                },
            }
        },
    }
}

} // verus!
