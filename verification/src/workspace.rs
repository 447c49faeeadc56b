//! Workspace path allocation.
//!
//! Every request gets its own directory under a fixed staging root, named
//! by a randomly generated token; inside it the toolchain scaffolds a
//! project sub-tree with a source file and a parameter file at fixed
//! relative paths.  Uniqueness of concurrently live workspaces rests
//! purely on the token: two workspaces with different tokens have
//! different paths, which is proved below.

use vstd::prelude::*;
use vstd::string::*;

verus! {

/// A character the random token may contain: a lowercase hexadecimal
/// digit or a hyphen.
pub open spec fn is_token_char(c: char) -> bool {
    c == '-' || ('0' <= c && c <= '9') || ('a' <= c && c <= 'f')
}

/// Shape of an allocation token: 36 token characters.
pub open spec fn token_wf(t: Seq<char>) -> bool {
    t.len() == 36 && forall|i: int| 0 <= i < t.len() ==> is_token_char(#[trigger] t[i])
}

/// Relies on uuid::Uuid::new_v4 and uuid's Display form: a version-4
/// identifier printed as 36 ASCII characters, lowercase hexadecimal
/// digits in five hyphen-separated groups.  The value is random, so
/// nothing is assumed beyond that shape.
#[verifier::external_body]
fn fresh_token() -> (r: String)
    ensures
        token_wf(r@),
{
    uuid::Uuid::new_v4().to_string()
}

/// The staging root all workspaces live under, inside `cwd`.
pub open spec fn staging_prefix(cwd: Seq<char>) -> Seq<char> {
    cwd + "/tmp/noir_projects/"@
}

/// The filesystem locations of one request's workspace.
pub struct WorkspacePaths {
    pub token: String,
    pub root: String,
    pub project_dir: String,
    pub source_file: String,
    pub prover_file: String,
}

impl WorkspacePaths {
    /// The fixed layout relative to the working directory the service was
    /// started in.
    pub open spec fn built_from(&self, cwd: Seq<char>) -> bool {
        &&& token_wf(self.token@)
        &&& self.root@ == staging_prefix(cwd) + self.token@
        &&& self.project_dir@ == self.root@ + "/project"@
        &&& self.source_file@ == self.project_dir@ + "/src/main.nr"@
        &&& self.prover_file@ == self.project_dir@ + "/Prover.toml"@
    }
}

/// Allocates the paths of a fresh workspace under `cwd`, named by a newly
/// drawn random token.
pub fn allocate(cwd: &str) -> (r: WorkspacePaths)
    ensures
        r.built_from(cwd@),
{
    let token = fresh_token();
    let mut root = String::new();
    root.append(cwd);
    root.append("/tmp/noir_projects/");
    root.append(token.as_str());
    let mut project_dir = root.clone();
    project_dir.append("/project");
    let mut source_file = project_dir.clone();
    source_file.append("/src/main.nr");
    let mut prover_file = project_dir.clone();
    prover_file.append("/Prover.toml");
    WorkspacePaths { token, root, project_dir, source_file, prover_file }
}

/// Law: workspace paths never collide — two workspaces allocated under
/// the same working directory with different tokens have different root
/// directories.
pub proof fn lemma_distinct_tokens_distinct_roots(
    a: WorkspacePaths,
    b: WorkspacePaths,
    cwd: Seq<char>,
)
    requires
        a.built_from(cwd),
        b.built_from(cwd),
        a.token@ != b.token@,
    ensures
        a.root@ != b.root@,
{
    let p = staging_prefix(cwd);
    if a.root@ == b.root@ {
        assert(a.token@.len() == 36 && b.token@.len() == 36);
        assert forall|i: int| 0 <= i < 36 implies a.token@[i] == b.token@[i] by {
            assert(a.root@[p.len() + i] == a.token@[i]);
            assert(b.root@[p.len() + i] == b.token@[i]);
        }
        assert(a.token@ =~= b.token@);
    }
}

} // verus!
