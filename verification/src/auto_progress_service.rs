//! Progress inferred from the repository: changed files read from
//! `git status`, the task's name and description from the last commit, and
//! the next steps from the state of tests, build and branch.
use vstd::prelude::*;
use crate::text::{owned, push_str, push_chars, push_decimal, to_chars, from_chars, sub_chars, trim, trim_chars,
    find_sub, find_sub_exec, before_first, before_first_exec, lemma_find_sub_le, contains, str_contains, str_eq,
    ends_with, finishes, decimal};
use crate::clock::new_uuid;

verus! {

/// How a file changed.
#[derive(Debug, Clone, Copy, PartialEq, Eq, Structural)]
pub enum FileChangeType {
    Added,
    Modified,
    Deleted,
    Renamed,
}

/// A file with changes in the working tree.
#[derive(Debug, Clone)]
pub struct ChangedFile {
    pub path: String,
    pub change_type: FileChangeType,
    pub lines_added: i32,
    pub lines_removed: i32,
}

/// Whether the tests pass.
#[derive(Debug, Clone, Copy, PartialEq, Eq, Structural)]
pub enum TestStatus {
    Unknown,
    AllPassing,
    SomeFailing,
}

/// Whether the project builds.
#[derive(Debug, Clone, Copy, PartialEq, Eq, Structural)]
pub enum BuildStatus {
    Unknown,
    Passing,
    Failing,
}

/// Where the task stands.
#[derive(Debug, Clone, Copy, PartialEq, Eq, Structural)]
pub enum ProgressStatus {
    InProgress,
    Blocked,
}

/// A step still to take (or one already taken).
#[derive(Debug, Clone)]
pub struct NextStep {
    pub id: String,
    pub description: String,
    pub priority: u8,
    pub estimated_minutes: Option<u32>,
    pub done: bool,
}

/// What the repository tells about the work in progress.
#[derive(Debug, Clone)]
pub struct GitState {
    pub branch: String,
    pub commit_hash: String,
    pub commit_message: String,
    pub author: String,
    pub timestamp: String,
    pub changed_files: Vec<ChangedFile>,
    pub uncommitted_changes: bool,
}

/// The change a two-letter `git status --porcelain` code stands for.
pub open spec fn change_of_status(x: Seq<char>) -> FileChangeType {
    if x == "A "@ || x == "??"@ {
        FileChangeType::Added
    } else if x == "D "@ {
        FileChangeType::Deleted
    } else if x == "R "@ {
        FileChangeType::Renamed
    } else {
        FileChangeType::Modified
    }
}

/// The first three characters (as far as there are) are ASCII, so that
/// the porcelain columns fall on character boundaries.
pub open spec fn ascii_head(line: Seq<char>) -> bool {
    forall|i: int| 0 <= i < 3 && i < line.len() ==> (line[i] as u32) < 128
}

/// The path and change of one `git status --porcelain` line: the status
/// code is its first two characters and the path follows the third.
pub open spec fn status_entry(line: Seq<char>) -> Option<(Seq<char>, FileChangeType)> {
    if line.len() >= 3 {
        Some((trim(line.skip(3)), change_of_status(line.take(2))))
    } else {
        None
    }
}

/// Whether `git diff --stat` reports uncommitted changes.
pub open spec fn has_uncommitted(diff: Seq<char>) -> bool {
    trim(diff).len() > 0 && contains(diff, "file changed"@)
}

/// The first eight characters of a commit hash.
pub open spec fn short_hash(h: Seq<char>) -> Seq<char> {
    if h.len() > 8 { h.take(8) } else { h }
}

pub open spec fn step_view(s: NextStep) -> (Seq<char>, u8, Option<u32>, bool) {
    (s.description@, s.priority, s.estimated_minutes, s.done)
}

pub open spec fn step_views(ss: Seq<NextStep>) -> Seq<(Seq<char>, u8, Option<u32>, bool)> {
    ss.map_values(|s: NextStep| step_view(s))
}

pub open spec fn some_added(fs: Seq<ChangedFile>) -> bool {
    exists|i: int| 0 <= i < fs.len() && (#[trigger] fs[i]).change_type == FileChangeType::Added
}

/// The steps suggested by the state of the work: commit, fix or confirm
/// the tests and the build, merge the branch, test new files.
pub open spec fn inferred_steps(g: GitState, test: TestStatus, build: BuildStatus) -> Seq<(Seq<char>, u8, Option<u32>, bool)> {
    (if !g.uncommitted_changes && g.changed_files@.len() > 0 {
        seq![("提交当前更改"@, 1u8, Some(2u32), false)]
    } else {
        Seq::empty()
    }) + match test {
        TestStatus::SomeFailing => seq![("修复失败的测试"@, 1u8, Some(30u32), false)],
        TestStatus::AllPassing => seq![("运行测试 - 全部通过"@, 2u8, Some(0u32), true)],
        TestStatus::Unknown => Seq::empty(),
    } + match build {
        BuildStatus::Failing => seq![("修复编译错误"@, 1u8, Some(15u32), false)],
        BuildStatus::Passing => seq![("编译检查 - 通过"@, 2u8, Some(0u32), true)],
        BuildStatus::Unknown => Seq::empty(),
    } + (if g.branch@ != "main"@ && g.branch@ != "master"@ {
        seq![("合并分支到 main (当前: "@ + g.branch@ + ")"@, 3u8, Some(10u32), false)]
    } else {
        Seq::empty()
    }) + (if some_added(g.changed_files@) {
        seq![("添加新功能的测试"@, 2u8, Some(20u32), false)]
    } else {
        Seq::empty()
    })
}

/// Blocked by failing tests or a failing build, otherwise in progress.
pub open spec fn inferred_status(test: TestStatus, build: BuildStatus) -> ProgressStatus {
    if test == TestStatus::SomeFailing || build == BuildStatus::Failing {
        ProgressStatus::Blocked
    } else {
        ProgressStatus::InProgress
    }
}

/// `msg` holds the marker `m`.
pub open spec fn holds(msg: Seq<char>, m: Seq<char>) -> bool {
    find_sub(msg, m) < msg.len()
}

/// The text after the first marker `m`, up to the next one, trimmed.
pub open spec fn after_marker(msg: Seq<char>, m: Seq<char>) -> Seq<char> {
    trim(before_first(msg.skip((find_sub(msg, m) + m.len()) as int), m))
}

/// The task name a commit message suggests: the text after a
/// conventional-commit marker, a fixed name for no commit, or the first
/// fifty characters.
pub open spec fn task_name(msg: Seq<char>) -> Seq<char> {
    if holds(msg, "feat:"@) {
        after_marker(msg, "feat:"@)
    } else if holds(msg, "fix:"@) {
        after_marker(msg, "fix:"@)
    } else if holds(msg, "refactor:"@) {
        after_marker(msg, "refactor:"@)
    } else if msg == "No commits"@ || msg.len() == 0 {
        "初始开发"@
    } else if msg.len() > 50 {
        msg.take(50)
    } else {
        msg
    }
}

/// The paths of the first three changed Rust files.
pub open spec fn rust_paths(fs: Seq<ChangedFile>, limit: nat) -> Seq<Seq<char>>
    decreases fs.len(),
{
    if fs.len() == 0 || limit == 0 {
        Seq::empty()
    } else if ends_with(fs[0].path@, ".rs"@) {
        seq![fs[0].path@] + rust_paths(fs.drop_first(), (limit - 1) as nat)
    } else {
        rust_paths(fs.drop_first(), limit)
    }
}

pub open spec fn spaced(ps: Seq<Seq<char>>) -> Seq<char>
    decreases ps.len(),
{
    if ps.len() == 0 { Seq::empty() } else { spaced(ps.drop_last()) + ps.last() + " "@ }
}

/// The task description: branch, author, number of changed files, whether
/// changes are uncommitted, and the first three changed Rust files.
pub open spec fn task_description(g: GitState) -> Seq<char> {
    let rs = rust_paths(g.changed_files@, 3);
    "分支: "@ + g.branch@ + ", 作者: "@ + g.author@ + ", 文件变更: "@ + decimal(g.changed_files@.len()) + " 个"@
        + (if g.uncommitted_changes { ", 有未提交更改"@ } else { Seq::empty() })
        + (if rs.len() > 0 { "\n最近修改: "@ + spaced(rs) } else { Seq::empty() })
}

/// Lines added and removed over the changed files.
pub open spec fn lines_changed(fs: Seq<ChangedFile>) -> int
    decreases fs.len(),
{
    if fs.len() == 0 { 0 } else { lines_changed(fs.drop_last()) + fs.last().lines_added + fs.last().lines_removed }
}

/// Each file's line count and every partial sum of them fits in an `i32`.
pub open spec fn sums_fit(fs: Seq<ChangedFile>) -> bool {
    &&& forall|k: int| 0 <= k <= fs.len() ==> i32::MIN <= #[trigger] lines_changed(fs.take(k)) <= i32::MAX
    &&& forall|k: int| 0 <= k < fs.len() ==> i32::MIN <= (#[trigger] fs[k]).lines_added + fs[k].lines_removed <= i32::MAX
}

pub open spec fn count_done(ss: Seq<NextStep>, done: bool) -> nat
    decreases ss.len(),
{
    if ss.len() == 0 { 0 } else { count_done(ss.drop_last(), done) + if ss.last().done == done { 1nat } else { 0nat } }
}

/// Infers progress from the repository and the tool runs.
pub struct AutoProgressTracker;

fn step(description: String, priority: u8, minutes: u32, done: bool) -> (r: NextStep)
    ensures
        step_view(r) == (description@, priority, Some(minutes), done),
{
    NextStep { id: new_uuid(), description, priority, estimated_minutes: Some(minutes), done }
}

fn push_step(v: &mut Vec<NextStep>, s: NextStep)
    ensures
        step_views(final(v)@) == step_views(old(v)@) + seq![step_view(s)],
{
    let ghost before = step_views(v@);
    v.push(s);
    assert(step_views(v@) =~= before + seq![step_view(s)]);
}

impl AutoProgressTracker {
    pub fn new() -> (r: Self) {
        AutoProgressTracker
    }

    /// Reads one line of `git status --porcelain`.
    pub fn parse_status_line(line: &str) -> (r: Option<ChangedFile>)
        requires
            ascii_head(line@),
        ensures
            match r {
                Some(f) => status_entry(line@) == Some((f.path@, f.change_type)) && f.lines_added == 0
                    && f.lines_removed == 0,
                None => status_entry(line@) is None,
            },
    {
        let c = to_chars(line);
        if c.len() < 3 {
            return None;
        }
        let code = sub_chars(c.as_slice(), 0, 2);
        assert(code@ =~= line@.take(2));
        let a = code[0];
        let b = code[1];
        let change_type = if (a == 'A' && b == ' ') || (a == '?' && b == '?') {
            FileChangeType::Added
        } else if a == 'D' && b == ' ' {
            FileChangeType::Deleted
        } else if a == 'R' && b == ' ' {
            FileChangeType::Renamed
        } else {
            FileChangeType::Modified
        };
        proof {
            reveal_strlit("A ");
            reveal_strlit("??");
            reveal_strlit("D ");
            reveal_strlit("R ");
            assert(code@.len() == 2);
            if code@ == "A "@ {
                assert("A "@[0] == 'A' && "A "@[1] == ' ');
            }
            if code@ == "??"@ {
                assert("??"@[0] == '?' && "??"@[1] == '?');
            }
            if code@ == "D "@ {
                assert("D "@[0] == 'D' && "D "@[1] == ' ');
            }
            if code@ == "R "@ {
                assert("R "@[0] == 'R' && "R "@[1] == ' ');
            }
            if (a == 'A' && b == ' ') {
                assert(code@ =~= "A "@);
            }
            if (a == '?' && b == '?') {
                assert(code@ =~= "??"@);
            }
            if (a == 'D' && b == ' ') {
                assert(code@ =~= "D "@);
            }
            if (a == 'R' && b == ' ') {
                assert(code@ =~= "R "@);
            }
        }
        let rest = sub_chars(c.as_slice(), 3, c.len());
        assert(rest@ =~= line@.skip(3));
        let path = trim_chars(rest.as_slice());
        Some(ChangedFile { path: from_chars(path.as_slice()), change_type, lines_added: 0, lines_removed: 0 })
    }

    /// Whether `git diff --stat` output reports uncommitted changes.
    pub fn uncommitted(diff: &str) -> (r: bool)
        ensures
            r == has_uncommitted(diff@),
    {
        let c = to_chars(diff);
        let t = trim_chars(c.as_slice());
        t.len() > 0 && str_contains(diff, "file changed")
    }

    /// The first eight characters of a commit hash.
    pub fn short_commit_hash(full: &str) -> (r: String)
        ensures
            r@ == short_hash(full@),
    {
        let c = to_chars(full);
        let n = if c.len() > 8 { 8 } else { c.len() };
        let s = sub_chars(c.as_slice(), 0, n);
        assert(c.len() <= 8 ==> s@ =~= full@);
        assert(c.len() > 8 ==> s@ =~= full@.take(8));
        from_chars(s.as_slice())
    }

    /// The status and the next steps the state of the work suggests.
    pub fn infer_progress_state(&self, git_state: &GitState, test_status: TestStatus, build_status: BuildStatus)
        -> (r: (ProgressStatus, Vec<NextStep>))
        ensures
            r.0 == inferred_status(test_status, build_status),
            step_views(r.1@) == inferred_steps(*git_state, test_status, build_status),
    {
        let mut steps: Vec<NextStep> = Vec::new();
        let ghost e = Seq::<(Seq<char>, u8, Option<u32>, bool)>::empty();
        assert(step_views(steps@) =~= e);
        if !git_state.uncommitted_changes && git_state.changed_files.len() > 0 {
            push_step(&mut steps, step(owned("提交当前更改"), 1, 2, false));
        }
        let ghost s1 = step_views(steps@);
        match test_status {
            TestStatus::SomeFailing => push_step(&mut steps, step(owned("修复失败的测试"), 1, 30, false)),
            TestStatus::AllPassing => push_step(&mut steps, step(owned("运行测试 - 全部通过"), 2, 0, true)),
            TestStatus::Unknown => {},
        }
        let ghost s2 = step_views(steps@);
        match build_status {
            BuildStatus::Failing => push_step(&mut steps, step(owned("修复编译错误"), 1, 15, false)),
            BuildStatus::Passing => push_step(&mut steps, step(owned("编译检查 - 通过"), 2, 0, true)),
            BuildStatus::Unknown => {},
        }
        let ghost s3 = step_views(steps@);
        if !str_eq(git_state.branch.as_str(), "main") && !str_eq(git_state.branch.as_str(), "master") {
            let mut d = owned("合并分支到 main (当前: ");
            push_str(&mut d, git_state.branch.as_str());
            push_str(&mut d, ")");
            push_step(&mut steps, step(d, 3, 10, false));
        }
        let ghost s4 = step_views(steps@);
        let mut added = false;
        for i in 0..git_state.changed_files.len()
            invariant
                added == exists|k: int| 0 <= k < i && (#[trigger] git_state.changed_files@[k]).change_type == FileChangeType::Added,
        {
            if git_state.changed_files[i].change_type == FileChangeType::Added {
                added = true;
            }
        }
        if added {
            push_step(&mut steps, step(owned("添加新功能的测试"), 2, 20, false));
        }
        proof {
            let t = inferred_steps(*git_state, test_status, build_status);
            assert(step_views(steps@) =~= t);
        }
        let blocked = test_status == TestStatus::SomeFailing || build_status == BuildStatus::Failing;
        (if blocked { ProgressStatus::Blocked } else { ProgressStatus::InProgress }, steps)
    }

    fn text_after_marker(msg: &[char], marker: &str) -> (r: String)
        requires
            holds(msg@, marker@),
        ensures
            r@ == after_marker(msg@, marker@),
    {
        let mc = to_chars(marker);
        let k = find_sub_exec(msg, mc.as_slice());
        proof {
            crate::text::lemma_find_sub_found(msg@, marker@);
            assert(mc@ == marker@);
            assert(k as nat == find_sub(msg@, marker@));
            assert(k + mc@.len() <= msg@.len());
        }
        let n = msg.len();
        let ml = mc.len();
        assert(k + ml <= n);
        let rest = sub_chars(msg, k + ml, n);
        assert(rest@ =~= msg@.skip((find_sub(msg@, marker@) + marker@.len()) as int));
        let piece = before_first_exec(rest.as_slice(), marker);
        let t = trim_chars(piece.as_slice());
        from_chars(t.as_slice())
    }

    /// The task name a commit message suggests.
    pub fn infer_task_name(&self, git_state: &GitState) -> (r: String)
        ensures
            r@ == task_name(git_state.commit_message@),
    {
        let msg = to_chars(git_state.commit_message.as_str());
        let m = msg.as_slice();
        proof {
            lemma_find_sub_le(msg@, "feat:"@);
            lemma_find_sub_le(msg@, "fix:"@);
            lemma_find_sub_le(msg@, "refactor:"@);
        }
        let feat = to_chars("feat:");
        if find_sub_exec(m, feat.as_slice()) < m.len() {
            return Self::text_after_marker(m, "feat:");
        }
        let fix = to_chars("fix:");
        if find_sub_exec(m, fix.as_slice()) < m.len() {
            return Self::text_after_marker(m, "fix:");
        }
        let refactor = to_chars("refactor:");
        if find_sub_exec(m, refactor.as_slice()) < m.len() {
            return Self::text_after_marker(m, "refactor:");
        }
        if str_eq(git_state.commit_message.as_str(), "No commits") || m.len() == 0 {
            return owned("初始开发");
        }
        let n = if m.len() > 50 { 50 } else { m.len() };
        let s = sub_chars(m, 0, n);
        assert(m@.len() <= 50 ==> s@ =~= msg@);
        assert(m@.len() > 50 ==> s@ =~= msg@.take(50));
        from_chars(s.as_slice())
    }

    /// The task description a repository state suggests.
    pub fn infer_task_description(&self, git_state: &GitState) -> (r: String)
        ensures
            r@ == task_description(*git_state),
    {
        let fs = &git_state.changed_files;
        let mut d = owned("分支: ");
        push_str(&mut d, git_state.branch.as_str());
        push_str(&mut d, ", 作者: ");
        push_str(&mut d, git_state.author.as_str());
        push_str(&mut d, ", 文件变更: ");
        push_decimal(&mut d, fs.len());
        push_str(&mut d, " 个");
        if git_state.uncommitted_changes {
            push_str(&mut d, ", 有未提交更改");
        }
        let ghost d0 = d@;
        let mut picked: Vec<usize> = Vec::new();
        let mut i: usize = 0;
        let ghost full = rust_paths(fs@, 3);
        assert(fs@.skip(0) =~= fs@);
        while i < fs.len() && picked.len() < 3
            invariant
                i <= fs@.len(),
                picked@.len() <= 3,
                full == rust_paths(fs@, 3),
                full == picked@.map_values(|k: usize| fs@[k as int].path@)
                    + rust_paths(fs@.skip(i as int), (3 - picked@.len()) as nat),
                forall|q: int| 0 <= q < picked@.len() ==> (#[trigger] picked@[q]) < fs@.len(),
            decreases fs@.len() - i,
        {
            let ghost t = fs@.skip(i as int);
            assert(t[0] == fs@[i as int]);
            assert(t.drop_first() =~= fs@.skip(i + 1));
            let ghost before = picked@;
            if finishes(to_chars(fs[i].path.as_str()).as_slice(), ".rs") {
                picked.push(i);
                assert(picked@.map_values(|k: usize| fs@[k as int].path@)
                    =~= before.map_values(|k: usize| fs@[k as int].path@).push(fs@[i as int].path@));
                assert(full =~= picked@.map_values(|k: usize| fs@[k as int].path@)
                    + rust_paths(fs@.skip(i + 1), (3 - picked@.len()) as nat));
            }
            i = i + 1;
        }
        proof {
            let rest = rust_paths(fs@.skip(i as int), (3 - picked@.len()) as nat);
            if i >= fs@.len() {
                assert(fs@.skip(i as int).len() == 0);
            }
            assert(rest =~= Seq::<Seq<char>>::empty());
            assert(full =~= picked@.map_values(|k: usize| fs@[k as int].path@));
        }
        if picked.len() > 0 {
            push_str(&mut d, "\n最近修改: ");
            let ghost d1 = d@;
            let ghost pv = picked@.map_values(|k: usize| fs@[k as int].path@);
            for j in 0..picked.len()
                invariant
                    pv == picked@.map_values(|k: usize| fs@[k as int].path@),
                    forall|q: int| 0 <= q < picked@.len() ==> (#[trigger] picked@[q]) < fs@.len(),
                    d@ == d1 + spaced(pv.take(j as int)),
            {
                assert(pv.take(j + 1).drop_last() =~= pv.take(j as int));
                push_str(&mut d, fs[picked[j]].path.as_str());
                push_str(&mut d, " ");
                assert(d@ =~= d1 + spaced(pv.take(j + 1)));
            }
            assert(pv.take(picked@.len() as int) =~= pv);
        }
        assert(d@ =~= task_description(*git_state));
        d
    }

    /// Lines added and removed over the changed files.
    pub fn count_lines_changed(files: &Vec<ChangedFile>) -> (r: i32)
        requires
            sums_fit(files@),
        ensures
            r as int == lines_changed(files@),
    {
        let mut total: i32 = 0;
        for i in 0..files.len()
            invariant
                sums_fit(files@),
                total as int == lines_changed(files@.take(i as int)),
        {
            assert(files@.take(i + 1).drop_last() =~= files@.take(i as int));
            assert(i32::MIN <= lines_changed(files@.take(i + 1)) <= i32::MAX);
            assert(files@.take(i + 1).last() == files@[i as int]);
            assert(i32::MIN <= files@[i as int].lines_added + files@[i as int].lines_removed <= i32::MAX);
            let x = files[i].lines_added + files[i].lines_removed;
            total = total + x;
        }
        assert(files@.take(files@.len() as int) =~= files@);
        total
    }

    /// Numbers of steps done and still to do.
    pub fn count_steps(steps: &Vec<NextStep>) -> (r: (usize, usize))
        ensures
            r.0 == count_done(steps@, true),
            r.1 == count_done(steps@, false),
    {
        let mut done: usize = 0;
        let mut pending: usize = 0;
        for i in 0..steps.len()
            invariant
                done == count_done(steps@.take(i as int), true),
                pending == count_done(steps@.take(i as int), false),
                done + pending == i,
        {
            assert(steps@.take(i + 1).drop_last() =~= steps@.take(i as int));
            if steps[i].done {
                done = done + 1;
            } else {
                pending = pending + 1;
            }
        }
        assert(steps@.take(steps@.len() as int) =~= steps@);
        (done, pending)
    }
}

} // verus!
