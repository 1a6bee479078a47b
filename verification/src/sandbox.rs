//! Workspaces: where the checkout of an issue lives, and the commands that
//! prepare and remove it.

use vstd::prelude::*;
use vstd::string::*;

use crate::decimal;
use crate::foreign;
use crate::text;

verus! {

/// Why a workspace could not be prepared or removed.
#[derive(Debug, Clone)]
pub enum SandboxError {
    CommandFailed(String),
    Io(String),
}

/// What an error stands for.
pub enum SandboxErrorModel {
    CommandFailed(Seq<char>),
    Io(Seq<char>),
}

impl View for SandboxError {
    type V = SandboxErrorModel;

    open spec fn view(&self) -> SandboxErrorModel {
        match self {
            SandboxError::CommandFailed(s) => SandboxErrorModel::CommandFailed(s@),
            SandboxError::Io(s) => SandboxErrorModel::Io(s@),
        }
    }
}

impl SandboxErrorModel {
    pub open spec fn message(self) -> Seq<char> {
        match self {
            SandboxErrorModel::CommandFailed(s) => "sandbox command failed: "@ + s,
            SandboxErrorModel::Io(s) => "sandbox io error: "@ + s,
        }
    }
}

impl SandboxError {
    /// The error in words.
    pub fn to_text(&self) -> (r: String)
        ensures
            r@ == self@.message(),
    {
        match self {
            SandboxError::CommandFailed(s) => "sandbox command failed: ".to_owned().concat(
                s.as_str(),
            ),
            SandboxError::Io(s) => "sandbox io error: ".to_owned().concat(s.as_str()),
        }
    }
}

/// The part of a branch name that a text in lower case gives.
pub open spec fn slug_of_lowered(lowered: Seq<char>) -> Seq<char> {
    let kept = text::drop_ends(foreign::dashed(lowered), text::CharSet::Hyphen);
    if kept.len() == 0 {
        "issue"@
    } else {
        kept
    }
}

/// The part of a branch name that a text in lower case gives.
pub fn slug_lowered(lowered: &str) -> (r: String)
    ensures
        r@ == slug_of_lowered(lowered@),
{
    let replaced = match foreign::regex_replace_all("[^a-z0-9]+", lowered, "-") {
        Some(s) => s,
        None => String::new(),
    };
    let kept = text::strip_ends(replaced.as_str(), text::CharSet::Hyphen);
    if kept.is_empty() {
        "issue".to_owned()
    } else {
        kept.to_owned()
    }
}

/// The part of a branch name that a text gives.
pub fn slug(s: &str) -> (r: String)
    ensures
        r@ == slug_of_lowered(foreign::lowercase_of(s@)),
        vstd::utf8::is_ascii_chars(s@) ==> r@ == slug_of_lowered(foreign::ascii_lowercase(s@)),
{
    slug_lowered(foreign::lowercase(s).as_str())
}

/// An issue as it is written: `owner/repo#number`.
pub open spec fn issue_text(owner: Seq<char>, repo: Seq<char>, number: int) -> Seq<char> {
    owner + "/"@ + repo + "#"@ + decimal::decimal(number)
}

/// The first eight hexadecimal digits of the digest of an issue.
pub open spec fn farm_dir_of(owner: Seq<char>, repo: Seq<char>, number: int) -> Seq<char> {
    foreign::hex_text(
        foreign::sha256_of(vstd::utf8::encode_utf8(issue_text(owner, repo, number))),
    ).take(8)
}

/// The directory of branches that belongs to an issue.
pub fn farm_dir(owner: &str, repo: &str, number: i64) -> (r: String)
    ensures
        r@ == farm_dir_of(owner@, repo@, number as int),
        r@.len() == 8,
{
    let mut key = owner.to_owned();
    key.append("/");
    key.append(repo);
    key.append("#");
    key.append(decimal::decimal_i64(number).as_str());
    let digest = foreign::sha256(key.as_str().as_bytes());
    let hex = foreign::hex_encode(digest.as_slice());
    assert(hex@.take(8) == hex@.subrange(0, 8));
    hex.as_str().substring_char(0, 8).to_owned()
}

/// A step on the file system or with git.
#[derive(Debug, Clone)]
pub enum Step {
    /// Create a directory, with its parents.
    CreateDir(String),
    /// Run git with the given arguments.
    Git(Vec<String>),
    /// Run git with the given arguments to refresh a mirror.
    Refresh(Vec<String>),
    /// Remove a directory with its contents, if it exists.
    RemoveTree(String),
}

/// What a step stands for.
pub enum StepModel {
    CreateDir(Seq<char>),
    Git(Seq<Seq<char>>),
    Refresh(Seq<Seq<char>>),
    RemoveTree(Seq<char>),
}

impl View for Step {
    type V = StepModel;

    open spec fn view(&self) -> StepModel {
        match self {
            Step::CreateDir(p) => StepModel::CreateDir(p@),
            Step::Git(args) => StepModel::Git(text::texts(args@)),
            Step::Refresh(args) => StepModel::Refresh(text::texts(args@)),
            Step::RemoveTree(p) => StepModel::RemoveTree(p@),
        }
    }
}

pub open spec fn steps_view(steps: Seq<Step>) -> Seq<StepModel> {
    steps.map_values(|s: Step| s@)
}

/// The name of the directory of an issue.
pub open spec fn issue_dir(owner: Seq<char>, repo: Seq<char>, number: int) -> Seq<char> {
    owner + "__"@ + repo + "__"@ + decimal::decimal(number)
}

/// The directory of an issue.
pub open spec fn base_dir(root: Seq<char>, owner: Seq<char>, repo: Seq<char>, number: int) -> Seq<
    char,
> {
    text::joined(root, issue_dir(owner, repo, number))
}

/// The checkout of an issue.
pub open spec fn worktree_dir(
    root: Seq<char>,
    owner: Seq<char>,
    repo: Seq<char>,
    number: int,
) -> Seq<char> {
    text::joined(base_dir(root, owner, repo, number), "repo"@)
}

/// The mirror that all checkouts of a repository share.
pub open spec fn mirror_dir(root: Seq<char>, owner: Seq<char>, repo: Seq<char>) -> Seq<char> {
    text::joined(root, owner + "__"@ + repo + ".git"@)
}

/// The branch that an issue is worked on, the name of the repository reading
/// `lowered` in lower case.
pub open spec fn branch_name(
    owner: Seq<char>,
    repo: Seq<char>,
    number: int,
    lowered: Seq<char>,
) -> Seq<char> {
    "farm/"@ + farm_dir_of(owner, repo, number) + "/"@ + slug_of_lowered(lowered)
}

/// Where the parts of a workspace live.
#[derive(Debug, Clone)]
pub struct WorkspacePaths {
    pub root: String,
    pub base: String,
    pub worktree: String,
    pub mirror: String,
}

impl WorkspacePaths {
    pub open spec fn belongs_to(
        self,
        root: Seq<char>,
        owner: Seq<char>,
        repo: Seq<char>,
        number: int,
    ) -> bool {
        &&& self.root@ == root
        &&& self.base@ == base_dir(root, owner, repo, number)
        &&& self.worktree@ == worktree_dir(root, owner, repo, number)
        &&& self.mirror@ == mirror_dir(root, owner, repo)
    }
}

/// Where the parts of the workspace of an issue live.
pub fn workspace_paths(workspaces_root: &str, owner: &str, repo: &str, number: i64) -> (r:
    WorkspacePaths)
    ensures
        r.belongs_to(workspaces_root@, owner@, repo@, number as int),
{
    let mut name = owner.to_owned();
    name.append("__");
    name.append(repo);
    let mirror_name = name.clone().concat(".git");
    name.append("__");
    name.append(decimal::decimal_i64(number).as_str());
    let base = text::join_path(workspaces_root, name.as_str());
    let worktree = text::join_path(base.as_str(), "repo");
    let mirror = text::join_path(workspaces_root, mirror_name.as_str());
    WorkspacePaths { root: workspaces_root.to_owned(), base, worktree, mirror }
}

/// The branch of an issue.
pub fn workspace_branch(owner: &str, repo: &str, number: i64) -> (r: String)
    ensures
        r@ == branch_name(owner@, repo@, number as int, foreign::lowercase_of(repo@)),
        vstd::utf8::is_ascii_chars(repo@) ==> r@ == branch_name(
            owner@,
            repo@,
            number as int,
            foreign::ascii_lowercase(repo@),
        ),
{
    let mut r = "farm/".to_owned();
    r.append(farm_dir(owner, repo, number).as_str());
    r.append("/");
    r.append(slug(repo).as_str());
    r
}

/// The steps that prepare a checkout: refresh the mirror where there is one,
/// else clone it; put the branch on the default branch; check it out. A
/// checkout that is there already needs none.
pub open spec fn preparation(
    root: Seq<char>,
    base: Seq<char>,
    worktree: Seq<char>,
    mirror: Seq<char>,
    repo_url: Seq<char>,
    branch: Seq<char>,
    default_branch: Seq<char>,
    checked_out: bool,
    mirrored: bool,
) -> Seq<StepModel> {
    if checked_out {
        Seq::empty()
    } else {
        seq![
            StepModel::CreateDir(root),
            if mirrored {
                StepModel::Refresh(seq!["-C"@, mirror, "remote"@, "update"@, "--prune"@])
            } else {
                StepModel::Git(seq!["clone"@, "--mirror"@, repo_url, mirror])
            },
            StepModel::Git(
                seq!["-C"@, mirror, "branch"@, "-f"@, branch, "refs/heads/"@ + default_branch],
            ),
            StepModel::CreateDir(base),
            StepModel::Git(
                seq!["-C"@, mirror, "worktree"@, "add"@, "-f"@, worktree, branch],
            ),
        ]
    }
}

/// Plans the steps that prepare a checkout. `checked_out` says whether the
/// checkout and its `.git` exist, `mirrored` whether the mirror does.
pub fn plan_workspace(
    paths: &WorkspacePaths,
    repo_url: &str,
    branch: &str,
    default_branch: &str,
    checked_out: bool,
    mirrored: bool,
) -> (r: Vec<Step>)
    ensures
        steps_view(r@) == preparation(
            paths.root@,
            paths.base@,
            paths.worktree@,
            paths.mirror@,
            repo_url@,
            branch@,
            default_branch@,
            checked_out,
            mirrored,
        ),
{
    let mut steps: Vec<Step> = Vec::new();
    if checked_out {
        assert(steps_view(steps@) =~= Seq::<StepModel>::empty());
        return steps;
    }
    steps.push(Step::CreateDir(paths.root.clone()));
    if mirrored {
        let args = vec![
            "-C".to_owned(),
            paths.mirror.clone(),
            "remote".to_owned(),
            "update".to_owned(),
            "--prune".to_owned(),
        ];
        assert(text::texts(args@) =~= seq![
            "-C"@,
            paths.mirror@,
            "remote"@,
            "update"@,
            "--prune"@,
        ]);
        steps.push(Step::Refresh(args));
    } else {
        let args = vec![
            "clone".to_owned(),
            "--mirror".to_owned(),
            repo_url.to_owned(),
            paths.mirror.clone(),
        ];
        assert(text::texts(args@) =~= seq!["clone"@, "--mirror"@, repo_url@, paths.mirror@]);
        steps.push(Step::Git(args));
    }
    let default_ref = "refs/heads/".to_owned().concat(default_branch);
    let args = vec![
        "-C".to_owned(),
        paths.mirror.clone(),
        "branch".to_owned(),
        "-f".to_owned(),
        branch.to_owned(),
        default_ref,
    ];
    assert(text::texts(args@) =~= seq![
        "-C"@,
        paths.mirror@,
        "branch"@,
        "-f"@,
        branch@,
        "refs/heads/"@ + default_branch@,
    ]);
    steps.push(Step::Git(args));
    steps.push(Step::CreateDir(paths.base.clone()));
    let args = vec![
        "-C".to_owned(),
        paths.mirror.clone(),
        "worktree".to_owned(),
        "add".to_owned(),
        "-f".to_owned(),
        paths.worktree.clone(),
        branch.to_owned(),
    ];
    assert(text::texts(args@) =~= seq![
        "-C"@,
        paths.mirror@,
        "worktree"@,
        "add"@,
        "-f"@,
        paths.worktree@,
        branch@,
    ]);
    steps.push(Step::Git(args));
    assert(steps_view(steps@) =~= preparation(
        paths.root@,
        paths.base@,
        paths.worktree@,
        paths.mirror@,
        repo_url@,
        branch@,
        default_branch@,
        checked_out,
        mirrored,
    ));
    steps
}

/// A checkout, and the steps that make it.
#[derive(Debug, Clone)]
pub struct WorkspacePlan {
    pub worktree: String,
    pub steps: Vec<Step>,
}

/// Plans the checkout of an issue. `checked_out` says whether the checkout and
/// its `.git` exist, `mirrored` whether the mirror does.
pub fn ensure_workspace(
    workspaces_root: &str,
    repo_url: &str,
    owner: &str,
    repo: &str,
    number: i64,
    default_branch: &str,
    checked_out: bool,
    mirrored: bool,
) -> (r: WorkspacePlan)
    ensures
        r.worktree@ == worktree_dir(workspaces_root@, owner@, repo@, number as int),
        steps_view(r.steps@) == preparation(
            workspaces_root@,
            base_dir(workspaces_root@, owner@, repo@, number as int),
            r.worktree@,
            mirror_dir(workspaces_root@, owner@, repo@),
            repo_url@,
            branch_name(owner@, repo@, number as int, foreign::lowercase_of(repo@)),
            default_branch@,
            checked_out,
            mirrored,
        ),
        vstd::utf8::is_ascii_chars(repo@) ==> steps_view(r.steps@) == preparation(
            workspaces_root@,
            base_dir(workspaces_root@, owner@, repo@, number as int),
            r.worktree@,
            mirror_dir(workspaces_root@, owner@, repo@),
            repo_url@,
            branch_name(owner@, repo@, number as int, foreign::ascii_lowercase(repo@)),
            default_branch@,
            checked_out,
            mirrored,
        ),
{
    let paths = workspace_paths(workspaces_root, owner, repo, number);
    let branch = workspace_branch(owner, repo, number);
    let steps = plan_workspace(
        &paths,
        repo_url,
        branch.as_str(),
        default_branch,
        checked_out,
        mirrored,
    );
    WorkspacePlan { worktree: paths.worktree, steps }
}

/// The steps that remove the workspace of an issue.
pub open spec fn removal(
    base: Seq<char>,
    worktree: Seq<char>,
    mirror: Seq<char>,
    checked_out: bool,
) -> Seq<StepModel> {
    if checked_out {
        seq![
            StepModel::Git(seq!["-C"@, mirror, "worktree"@, "remove"@, "--force"@, worktree]),
            StepModel::RemoveTree(base),
        ]
    } else {
        seq![StepModel::RemoveTree(base)]
    }
}

/// Plans the removal of the workspace of an issue. `checked_out` says whether
/// the checkout exists.
pub fn cleanup_workspace(
    workspaces_root: &str,
    owner: &str,
    repo: &str,
    number: i64,
    checked_out: bool,
) -> (r: Vec<Step>)
    ensures
        steps_view(r@) == removal(
            base_dir(workspaces_root@, owner@, repo@, number as int),
            worktree_dir(workspaces_root@, owner@, repo@, number as int),
            mirror_dir(workspaces_root@, owner@, repo@),
            checked_out,
        ),
{
    let paths = workspace_paths(workspaces_root, owner, repo, number);
    let mut steps: Vec<Step> = Vec::new();
    if checked_out {
        let args = vec![
            "-C".to_owned(),
            paths.mirror.clone(),
            "worktree".to_owned(),
            "remove".to_owned(),
            "--force".to_owned(),
            paths.worktree.clone(),
        ];
        assert(text::texts(args@) =~= seq![
            "-C"@,
            paths.mirror@,
            "worktree"@,
            "remove"@,
            "--force"@,
            paths.worktree@,
        ]);
        steps.push(Step::Git(args));
    }
    steps.push(Step::RemoveTree(paths.base.clone()));
    assert(steps_view(steps@) =~= removal(
        paths.base@,
        paths.worktree@,
        paths.mirror@,
        checked_out,
    ));
    steps
}

/// How a run of git ended.
#[derive(Debug, Clone)]
pub enum GitRun {
    /// The program could not be started.
    NotStarted(String),
    /// The program ended.
    Ended { success: bool, stdout: String, stderr: String },
}

/// What a run of git with the given arguments gives.
pub open spec fn git_result(args: Seq<Seq<char>>, run: GitRun) -> Result<
    Seq<char>,
    SandboxErrorModel,
> {
    match run {
        GitRun::NotStarted(e) => Err(
            SandboxErrorModel::CommandFailed("failed to spawn git: "@ + e@),
        ),
        GitRun::Ended { success, stdout, stderr } => if success {
            Ok(stdout@)
        } else {
            Err(
                SandboxErrorModel::CommandFailed(
                    "git "@ + text::joined_by(args, " "@) + " failed: "@ + stderr@,
                ),
            )
        },
    }
}

pub open spec fn result_view(r: Result<String, SandboxError>) -> Result<
    Seq<char>,
    SandboxErrorModel,
> {
    match r {
        Ok(s) => Ok(s@),
        Err(e) => Err(e@),
    }
}

/// What a run of git with the given arguments gives.
pub fn run_git_cmd(args: &Vec<String>, run: GitRun) -> (r: Result<String, SandboxError>)
    ensures
        result_view(r) == git_result(text::texts(args@), run),
{
    match run {
        GitRun::NotStarted(e) => Err(
            SandboxError::CommandFailed("failed to spawn git: ".to_owned().concat(e.as_str())),
        ),
        GitRun::Ended { success, stdout, stderr } => if success {
            Ok(stdout)
        } else {
            let mut m = "git ".to_owned();
            m.append(text::join_with(args, " ").as_str());
            m.append(" failed: ");
            m.append(stderr.as_str());
            Err(SandboxError::CommandFailed(m))
        },
    }
}

/// What the failure of a refresh is reported as.
pub fn refresh_failure(mirror: &str, repo_url: &str, error: &SandboxError) -> (r: SandboxError)
    ensures
        r@ == SandboxErrorModel::CommandFailed(
            "failed to refresh existing mirror at "@ + mirror@ + " for repository "@ + repo_url@
                + ": "@ + error@.message(),
        ),
{
    let mut m = "failed to refresh existing mirror at ".to_owned();
    m.append(mirror);
    m.append(" for repository ");
    m.append(repo_url);
    m.append(": ");
    m.append(error.to_text().as_str());
    SandboxError::CommandFailed(m)
}

/// What the failure to remove the directory of an issue is reported as.
pub fn removal_failure(base: &str, error: &str) -> (r: SandboxError)
    ensures
        r@ == SandboxErrorModel::Io("failed to remove workspace "@ + base@ + ": "@ + error@),
{
    let mut m = "failed to remove workspace ".to_owned();
    m.append(base);
    m.append(": ");
    m.append(error);
    SandboxError::Io(m)
}

/// `c` may stand in a slug.
pub open spec fn is_slug_part(c: char) -> bool {
    foreign::is_slug_char(c) || c == '-'
}

proof fn lemma_dashed(s: Seq<char>)
    ensures
        forall|i: int|
            0 <= i < foreign::dashed(s).len() ==> is_slug_part(#[trigger] foreign::dashed(s)[i]),
        forall|i: int, j: int|
            0 <= i && j == i + 1 && j < foreign::dashed(s).len() ==> !(#[trigger] foreign::dashed(
                s,
            )[i] == '-' && #[trigger] foreign::dashed(s)[j] == '-'),
        foreign::dashed(s).len() == 0 <==> s.len() == 0,
        s.len() > 0 && foreign::is_slug_char(s.last()) ==> foreign::dashed(s).last() == s.last(),
        s.len() > 0 && !foreign::is_slug_char(s.last()) ==> foreign::dashed(s).last() == '-',
    decreases s.len(),
{
    if s.len() > 0 {
        let rest = s.drop_last();
        lemma_dashed(rest);
        if s.len() > 1 {
            assert(rest.last() == s[s.len() - 2]);
        }
    }
}

/// A slug is not empty, is made of lower-case letters, digits and hyphens, has
/// a letter or a digit at either end, and never two hyphens in a row.
pub proof fn law_slug_is_a_branch_part(lowered: Seq<char>)
    ensures
        ({
            let s = slug_of_lowered(lowered);
            &&& s.len() > 0
            &&& foreign::is_slug_char(s[0])
            &&& foreign::is_slug_char(s.last())
            &&& forall|i: int| 0 <= i < s.len() ==> is_slug_part(#[trigger] s[i])
            &&& forall|i: int, j: int|
                0 <= i && j == i + 1 && j < s.len() ==> !(#[trigger] s[i] == '-' && #[trigger] s[j]
                    == '-')
        }),
{
    reveal_strlit("issue");
    let d = foreign::dashed(lowered);
    let s = text::drop_ends(d, text::CharSet::Hyphen);
    let from = d.len() - text::drop_front(d, text::CharSet::Hyphen).len();
    lemma_dashed(lowered);
    text::law_drop_ends(d, text::CharSet::Hyphen);
    assert forall|i: int| 0 <= i < s.len() implies is_slug_part(#[trigger] s[i]) by {
        assert(s[i] == d[from + i]);
    }
    assert forall|i: int, j: int| 0 <= i && j == i + 1 && j < s.len() implies !(#[trigger] s[i]
        == '-' && #[trigger] s[j] == '-') by {
        assert(s[i] == d[from + i]);
        assert(s[j] == d[from + j]);
    }
}

/// Two issues of one repository never share a workspace.
pub proof fn law_workspaces_are_apart(
    root: Seq<char>,
    owner: Seq<char>,
    repo: Seq<char>,
    m: int,
    n: int,
)
    requires
        m != n,
    ensures
        base_dir(root, owner, repo, m) != base_dir(root, owner, repo, n),
        worktree_dir(root, owner, repo, m) != worktree_dir(root, owner, repo, n),
{
    let stem = owner + "__"@ + repo + "__"@;
    let a = stem + decimal::decimal(m);
    let b = stem + decimal::decimal(n);
    reveal_strlit("__");
    reveal_strlit("repo");
    reveal_strlit("/");
    if a == b {
        assert(a.skip(stem.len() as int) =~= decimal::decimal(m));
        assert(b.skip(stem.len() as int) =~= decimal::decimal(n));
        decimal::law_decimal_injective(m, n);
    }
    assert(a[0] == stem[0] && b[0] == stem[0]);
    let x = text::joined(root, a);
    let y = text::joined(root, b);
    lemma_joined_injective(root, a, b);
    lemma_joined_names(x, y, "repo"@);
}

proof fn lemma_decimal_has_no_underscore(n: int)
    ensures
        decimal::decimal(n).len() > 0,
        !decimal::decimal(n).contains('_'),
{
    let m = if n < 0 {
        (-n) as nat
    } else {
        n as nat
    };
    decimal::law_decimal_nat_reads_back(m);
    let d = decimal::decimal(n);
    assert forall|i: int| 0 <= i < d.len() implies d[i] != '_' by {
        if n < 0 && i > 0 {
            assert(d[i] == decimal::decimal_nat(m)[i - 1]);
        }
    }
}

proof fn lemma_issue_dir_injective(
    owner1: Seq<char>,
    repo1: Seq<char>,
    n1: int,
    owner2: Seq<char>,
    repo2: Seq<char>,
    n2: int,
)
    requires
        !owner1.contains('_'),
        !owner2.contains('_'),
        issue_dir(owner1, repo1, n1) == issue_dir(owner2, repo2, n2),
    ensures
        owner1 == owner2,
        repo1 == repo2,
        n1 == n2,
{
    reveal_strlit("__");
    let a = issue_dir(owner1, repo1, n1);
    let b = issue_dir(owner2, repo2, n2);
    let d1 = decimal::decimal(n1);
    let d2 = decimal::decimal(n2);
    lemma_decimal_has_no_underscore(n1);
    lemma_decimal_has_no_underscore(n2);
    assert(a[owner1.len() as int] == '_');
    assert(b[owner2.len() as int] == '_');
    if owner1.len() < owner2.len() {
        assert(b[owner1.len() as int] == owner2[owner1.len() as int]);
    }
    if owner2.len() < owner1.len() {
        assert(a[owner2.len() as int] == owner1[owner2.len() as int]);
    }
    assert(a.take(owner1.len() as int) =~= owner1);
    assert(b.take(owner2.len() as int) =~= owner2);
    let p = a.len() - d1.len();
    let q = b.len() - d2.len();
    assert(a[p - 1] == '_');
    assert(b[q - 1] == '_');
    if p < q {
        assert(a[q - 1] == d1[q - 1 - p]);
    }
    if q < p {
        assert(b[p - 1] == d2[p - 1 - q]);
    }
    assert(a.skip(p) =~= d1);
    assert(b.skip(q) =~= d2);
    decimal::law_decimal_injective(n1, n2);
    let from = owner1.len() + 2;
    assert(a.subrange(from as int, p - 2) =~= repo1);
    assert(b.subrange(from as int, q - 2) =~= repo2);
}

/// Two issues never share a workspace, whatever their repositories, as long as
/// their owners have no underscore in their names, which would blur where a
/// name ends, and no slash in front, which would lead out of the root.
pub proof fn law_workspaces_of_repositories_are_apart(
    root: Seq<char>,
    owner1: Seq<char>,
    repo1: Seq<char>,
    n1: int,
    owner2: Seq<char>,
    repo2: Seq<char>,
    n2: int,
)
    requires
        (owner1, repo1, n1) != (owner2, repo2, n2),
        !owner1.contains('_'),
        !owner2.contains('_'),
        !text::begins_with(owner1, "/"@),
        !text::begins_with(owner2, "/"@),
    ensures
        base_dir(root, owner1, repo1, n1) != base_dir(root, owner2, repo2, n2),
        worktree_dir(root, owner1, repo1, n1) != worktree_dir(root, owner2, repo2, n2),
{
    reveal_strlit("__");
    reveal_strlit("repo");
    reveal_strlit("/");
    let a = issue_dir(owner1, repo1, n1);
    let b = issue_dir(owner2, repo2, n2);
    if a == b {
        lemma_issue_dir_injective(owner1, repo1, n1, owner2, repo2, n2);
    }
    assert(a[0] != '/') by {
        if owner1.len() > 0 && owner1[0] == '/' {
            assert(owner1.subrange(0, 1) =~= "/"@);
        }
    }
    assert(b[0] != '/') by {
        if owner2.len() > 0 && owner2[0] == '/' {
            assert(owner2.subrange(0, 1) =~= "/"@);
        }
    }
    let x = text::joined(root, a);
    let y = text::joined(root, b);
    lemma_decimal_has_no_slash_behind(n1);
    lemma_decimal_has_no_slash_behind(n2);
    assert(x.last() == decimal::decimal(n1).last());
    assert(y.last() == decimal::decimal(n2).last());
    if x == y {
        assert(x.skip(x.len() - a.len()) =~= a);
        assert(y.skip(y.len() - b.len()) =~= b);
    }
    lemma_joined_names(x, y, "repo"@);
}

proof fn lemma_decimal_has_no_slash_behind(n: int)
    ensures
        decimal::decimal(n).len() > 0,
        decimal::decimal(n).last() != '/',
{
    let m = if n < 0 {
        (-n) as nat
    } else {
        n as nat
    };
    decimal::law_decimal_nat_reads_back(m);
    if n < 0 {
        assert(decimal::decimal(n).last() == decimal::decimal_nat(m).last());
    }
}

proof fn lemma_joined_injective(dir: Seq<char>, a: Seq<char>, b: Seq<char>)
    requires
        a.len() > 0,
        b.len() > 0,
        a[0] == b[0],
        a != b,
    ensures
        text::joined(dir, a) != text::joined(dir, b),
{
    let x = text::joined(dir, a);
    let y = text::joined(dir, b);
    let k = x.len() - a.len();
    if x == y {
        let l = y.len() - b.len();
        assert(x.skip(k) =~= a);
        assert(y.skip(l) =~= b);
    }
}

proof fn lemma_joined_names(x: Seq<char>, y: Seq<char>, name: Seq<char>)
    requires
        x != y,
        x.len() > 0,
        y.len() > 0,
        x.last() != '/' && y.last() != '/',
        name.len() > 0,
        name[0] != '/',
    ensures
        text::joined(x, name) != text::joined(y, name),
{
    let a = text::joined(x, name);
    let b = text::joined(y, name);
    reveal_strlit("/");
    assert(a.len() == x.len() + 1 + name.len());
    assert(b.len() == y.len() + 1 + name.len());
    if a == b {
        assert(a.take(x.len() as int) =~= x);
        assert(b.take(y.len() as int) =~= y);
    }
}

/// A checkout that is there is kept as it is; an existing mirror is refreshed
/// before the branch is put on the default branch of the remote.
pub proof fn law_preparation_starts_from_the_remote(
    root: Seq<char>,
    base: Seq<char>,
    worktree: Seq<char>,
    mirror: Seq<char>,
    repo_url: Seq<char>,
    branch: Seq<char>,
    default_branch: Seq<char>,
    mirrored: bool,
)
    ensures
        preparation(
            root,
            base,
            worktree,
            mirror,
            repo_url,
            branch,
            default_branch,
            true,
            mirrored,
        ).len() == 0,
        ({
            let steps = preparation(
                root,
                base,
                worktree,
                mirror,
                repo_url,
                branch,
                default_branch,
                false,
                mirrored,
            );
            &&& mirrored ==> steps[1] is Refresh
            &&& !mirrored ==> steps[1] == StepModel::Git(
                seq!["clone"@, "--mirror"@, repo_url, mirror],
            )
            &&& steps[2] matches StepModel::Git(args) && args.last() == "refs/heads/"@
                + default_branch
        }),
{
}

/// A slug keeps each run of letters and digits, with one hyphen between two of
/// them; a text without any gives a word of its own.
pub proof fn law_slugs(word: Seq<char>, gap: Seq<char>, more: Seq<char>)
    requires
        word.len() > 0,
        forall|i: int| 0 <= i < word.len() ==> foreign::is_slug_char(#[trigger] word[i]),
        more.len() > 0,
        forall|i: int| 0 <= i < more.len() ==> foreign::is_slug_char(#[trigger] more[i]),
        gap.len() > 0,
        forall|i: int| 0 <= i < gap.len() ==> !foreign::is_slug_char(#[trigger] gap[i]),
    ensures
        slug_of_lowered(word) == word,
        slug_of_lowered(gap) == "issue"@,
        slug_of_lowered(word + gap + more) == word + seq!['-'] + more,
        slug_of_lowered(gap + word) == word,
        slug_of_lowered(word + gap) == word,
{
    let none = Seq::<char>::empty();
    lemma_dashed_word(none, word);
    assert(none + word =~= word);
    assert(foreign::dashed(none) =~= none);
    lemma_slug_between(none, word, none);
    assert(none + word + none =~= word);
    lemma_dashed_gap(none, gap);
    assert(none + gap =~= gap);
    let dash = seq!['-'];
    assert(foreign::dashed(gap) =~= dash);
    text::law_drop_ends(dash, text::CharSet::Hyphen);
    lemma_dashed_gap(word, gap);
    lemma_dashed_word(word + gap, more);
    let d = foreign::dashed(word + gap + more);
    assert(d =~= word + dash + more);
    lemma_slug_between(none, d, none);
    assert(none + d + none =~= d);
    lemma_dashed_word(gap, word);
    lemma_slug_between(dash, word, none);
    assert(foreign::dashed(gap + word) =~= dash + word + none);
    lemma_slug_between(none, word, dash);
    assert(foreign::dashed(word + gap) =~= none + word + dash);
}

proof fn lemma_dashed_word(s: Seq<char>, word: Seq<char>)
    requires
        forall|i: int| 0 <= i < word.len() ==> foreign::is_slug_char(#[trigger] word[i]),
    ensures
        foreign::dashed(s + word) == foreign::dashed(s) + word,
    decreases word.len(),
{
    if word.len() == 0 {
        assert(s + word =~= s);
        assert(foreign::dashed(s) + word =~= foreign::dashed(s));
    } else {
        let t = s + word;
        assert(t.drop_last() =~= s + word.drop_last());
        assert(t.last() == word[word.len() - 1]);
        lemma_dashed_word(s, word.drop_last());
        assert((foreign::dashed(s) + word.drop_last()).push(word.last()) =~= foreign::dashed(s)
            + word);
    }
}

proof fn lemma_dashed_gap(s: Seq<char>, gap: Seq<char>)
    requires
        s.len() == 0 || foreign::is_slug_char(s.last()),
        gap.len() > 0,
        forall|i: int| 0 <= i < gap.len() ==> !foreign::is_slug_char(#[trigger] gap[i]),
    ensures
        foreign::dashed(s + gap) == foreign::dashed(s).push('-'),
    decreases gap.len(),
{
    let t = s + gap;
    assert(t.last() == gap[gap.len() - 1]);
    if gap.len() == 1 {
        assert(t.drop_last() =~= s);
        if t.len() > 1 {
            assert(t[t.len() - 2] == s.last());
        }
    } else {
        assert(t[t.len() - 2] == gap[gap.len() - 2]);
        assert(t.drop_last() =~= s + gap.drop_last());
        lemma_dashed_gap(s, gap.drop_last());
    }
}

proof fn lemma_slug_between(front: Seq<char>, middle: Seq<char>, back: Seq<char>)
    requires
        forall|i: int| 0 <= i < front.len() ==> front[i] == '-',
        forall|i: int| 0 <= i < back.len() ==> back[i] == '-',
        middle.len() > 0,
        middle[0] != '-',
        middle.last() != '-',
    ensures
        text::drop_ends(front + middle + back, text::CharSet::Hyphen) == middle,
{
    let set = text::CharSet::Hyphen;
    let s = front + middle + back;
    let rest = text::drop_front(s, set);
    let from = s.len() - rest.len();
    text::law_drop_front(s, set);
    assert(s[front.len() as int] == middle[0]);
    assert(from == front.len()) by {
        if from < front.len() {
            assert(s[from] == front[from]);
            assert(rest[0] == s[from]);
        }
    }
    assert(rest =~= middle + back);
    text::law_drop_back(rest, set);
    let r = text::drop_back(rest, set);
    assert(r.len() == middle.len()) by {
        if r.len() < middle.len() {
            assert(rest[middle.len() - 1] == middle.last());
        }
        if r.len() > middle.len() {
            assert(r.last() == rest[r.len() - 1]);
            assert(rest[r.len() - 1] == back[r.len() - 1 - middle.len()]);
        }
    }
    assert(r =~= middle);
}

/// Where the parts of a workspace live, and the branch that an issue is worked
/// on.
pub proof fn law_places_of_a_workspace(
    root: Seq<char>,
    owner: Seq<char>,
    repo: Seq<char>,
    number: int,
    lowered: Seq<char>,
)
    ensures
        base_dir(root, owner, repo, number) == text::joined(
            root,
            owner + "__"@ + repo + "__"@ + decimal::decimal(number),
        ),
        worktree_dir(root, owner, repo, number) == text::joined(
            base_dir(root, owner, repo, number),
            "repo"@,
        ),
        mirror_dir(root, owner, repo) == text::joined(root, owner + "__"@ + repo + ".git"@),
        branch_name(owner, repo, number, lowered) == "farm/"@ + foreign::hex_text(
            foreign::sha256_of(
                vstd::utf8::encode_utf8(
                    owner + "/"@ + repo + "#"@ + decimal::decimal(number),
                ),
            ),
        ).take(8) + "/"@ + slug_of_lowered(lowered),
        issue_text(owner, repo, number) == owner + "/"@ + repo + "#"@ + decimal::decimal(number),
{
}

/// A checkout is made from the mirror, which is refreshed or cloned first, on a
/// branch that begins where the default branch stands; one that is there is kept.
pub proof fn law_steps_to_a_checkout(
    root: Seq<char>,
    base: Seq<char>,
    worktree: Seq<char>,
    mirror: Seq<char>,
    repo_url: Seq<char>,
    branch: Seq<char>,
    default_branch: Seq<char>,
    mirrored: bool,
)
    ensures
        preparation(
            root,
            base,
            worktree,
            mirror,
            repo_url,
            branch,
            default_branch,
            false,
            mirrored,
        ) == seq![
            StepModel::CreateDir(root),
            if mirrored {
                StepModel::Refresh(seq!["-C"@, mirror, "remote"@, "update"@, "--prune"@])
            } else {
                StepModel::Git(seq!["clone"@, "--mirror"@, repo_url, mirror])
            },
            StepModel::Git(
                seq!["-C"@, mirror, "branch"@, "-f"@, branch, "refs/heads/"@ + default_branch],
            ),
            StepModel::CreateDir(base),
            StepModel::Git(seq!["-C"@, mirror, "worktree"@, "add"@, "-f"@, worktree, branch]),
        ],
{
}

/// The directory of an issue is removed in any case, and its checkout is taken
/// off the mirror before that where it is there.
pub proof fn law_steps_of_a_cleanup(base: Seq<char>, worktree: Seq<char>, mirror: Seq<char>)
    ensures
        removal(base, worktree, mirror, false) == seq![StepModel::RemoveTree(base)],
        removal(base, worktree, mirror, true) == seq![
            StepModel::Git(seq!["-C"@, mirror, "worktree"@, "remove"@, "--force"@, worktree]),
            StepModel::RemoveTree(base),
        ],
{
}

/// A run of git gives what it wrote where it succeeds; else what it was run with
/// and why it failed.
pub proof fn law_runs_of_git(args: Seq<Seq<char>>, run: GitRun)
    ensures
        ({
            let r = git_result(args, run);
            &&& run matches GitRun::Ended { success, stdout, stderr } ==> {
                &&& success ==> r == Ok::<Seq<char>, SandboxErrorModel>(stdout@)
                &&& !success ==> r == Err::<Seq<char>, SandboxErrorModel>(
                    SandboxErrorModel::CommandFailed(
                        "git "@ + text::joined_by(args, " "@) + " failed: "@ + stderr@,
                    ),
                )
            }
            &&& run matches GitRun::NotStarted(e) ==> r == Err::<Seq<char>, SandboxErrorModel>(
                SandboxErrorModel::CommandFailed("failed to spawn git: "@ + e@),
            )
        }),
{
}

/// Each error is told in its own words.
pub proof fn law_sandbox_errors_in_words(s: Seq<char>)
    ensures
        SandboxErrorModel::CommandFailed(s).message() == "sandbox command failed: "@ + s,
        SandboxErrorModel::Io(s).message() == "sandbox io error: "@ + s,
{
}

} // verus!
