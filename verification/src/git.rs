use vstd::prelude::*;

use crate::input::{KeyCode, KeyEvent};
use crate::modal::edited;
use crate::text::{is_blank, lemma_trim_blank, trim, trim_spec};
use crate::text_input::{apply, TextInputAction};

verus! {

/// How many log entries one page of the Git tab's log loads.
pub const LOG_PAGE: u32 = 30;

/// One changed file of a repository's working tree.
pub struct GitFileEntry {
    pub path: String,
    pub staged: bool,
}

/// One local branch.
pub struct GitBranch {
    pub name: String,
    pub is_current: bool,
}

/// What the Git tab knows of one repository: its path, changed files,
/// branches, and how much of its log is loaded.
pub struct GitRepoState {
    pub path: String,
    pub status: Vec<GitFileEntry>,
    pub branches: Vec<GitBranch>,
    /// How many log entries are loaded.
    pub log_len: usize,
    pub log_loading: bool,
    pub log_complete: bool,
}

impl GitRepoState {
    /// A repository just discovered: nothing known of it yet.
    pub fn new(path: String) -> (r: GitRepoState)
        ensures
            r.path@ == path@,
            r.status@.len() == 0,
            r.branches@.len() == 0,
            r.log_len == 0,
            !r.log_loading,
            !r.log_complete,
    {
        GitRepoState {
            path,
            status: Vec::new(),
            branches: Vec::new(),
            log_len: 0,
            log_loading: false,
            log_complete: false,
        }
    }
}

/// Index of the first repository at `path`.
pub open spec fn repo_index(repos: Seq<GitRepoState>, path: Seq<char>) -> Option<int>
    decreases repos.len(),
{
    if repos.len() == 0 {
        None
    } else {
        match repo_index(repos.drop_last(), path) {
            Some(i) => Some(i),
            None => if repos.last().path@ == path {
                Some(repos.len() - 1)
            } else {
                None
            },
        }
    }
}

/// Where `path` is found, it is found at the first repository with that
/// path; where it is not, no repository has it.
pub proof fn lemma_repo_index(repos: Seq<GitRepoState>, path: Seq<char>)
    ensures
        match repo_index(repos, path) {
            Some(i) => 0 <= i < repos.len() && repos[i].path@ == path && forall|k: int|
                0 <= k < i ==> (#[trigger] repos[k]).path@ != path,
            None => forall|k: int| 0 <= k < repos.len() ==> (#[trigger] repos[k]).path@ != path,
        },
    decreases repos.len(),
{
    if repos.len() > 0 {
        assert(forall|k: int| 0 <= k < repos.len() - 1 ==> repos.drop_last()[k] == repos[k]);
        lemma_repo_index(repos.drop_last(), path);
    }
}

/// The Git tab of one workspace: its repositories, the highlighted repo
/// and file, the draft commit message, and whether the log is shown.
pub struct GitState {
    pub available: Option<bool>,
    pub repos: Vec<GitRepoState>,
    pub selected_repo: usize,
    pub selected_file: usize,
    pub commit_message: String,
    pub show_log: bool,
}

/// What a key on the Git tab asks the app to do.
pub enum GitCommand {
    Nothing,
    Stage { repo: String, paths: Vec<String> },
    Unstage { repo: String, paths: Vec<String> },
    /// Open the commit-message prompt, prefilled with the draft.
    OpenCommitMessage { repo: String, input: String },
    Fetch { repo: String },
    Pull { repo: String },
    Push { repo: String },
    SwitchBranch { repo: String, name: String },
    /// Load `limit` log entries after the first `skip`.
    Log { repo: String, skip: u32, limit: u32 },
}

/// Index of the first current branch, or 0 when none is marked current.
pub open spec fn current_branch(bs: Seq<GitBranch>) -> int
    decreases bs.len(),
{
    if bs.len() == 0 {
        0
    } else if bs[0].is_current {
        0
    } else if exists|k: int| 0 <= k < bs.len() && bs[k].is_current {
        1 + current_branch(bs.skip(1))
    } else {
        0
    }
}

proof fn lemma_current_branch(bs: Seq<GitBranch>)
    ensures
        0 <= current_branch(bs) && (bs.len() > 0 ==> current_branch(bs) < bs.len()),
        (exists|k: int| 0 <= k < bs.len() && bs[k].is_current) ==> {
            &&& bs[current_branch(bs)].is_current
            &&& forall|k: int| 0 <= k < current_branch(bs) ==> !(#[trigger] bs[k]).is_current
        },
        (forall|k: int| 0 <= k < bs.len() ==> !(#[trigger] bs[k]).is_current) ==> current_branch(bs) == 0,
    decreases bs.len(),
{
    if bs.len() > 0 && !bs[0].is_current {
        let rest = bs.skip(1);
        lemma_current_branch(rest);
        if exists|k: int| 0 <= k < bs.len() && bs[k].is_current {
            let k = choose|k: int| 0 <= k < bs.len() && bs[k].is_current;
            assert(rest[k - 1] == bs[k]);
            assert forall|j: int| 0 <= j < current_branch(bs) implies !(#[trigger] bs[j]).is_current by {
                if j > 0 {
                    assert(bs[j] == rest[j - 1]);
                }
            }
        }
    }
}

impl GitState {
    pub fn new() -> (r: GitState)
        ensures
            r.available is None,
            r.repos@.len() == 0,
            r.selected_repo == 0,
            r.selected_file == 0,
            r.commit_message@ == Seq::<char>::empty(),
            !r.show_log,
    {
        GitState {
            available: None,
            repos: Vec::new(),
            selected_repo: 0,
            selected_file: 0,
            commit_message: String::new(),
            show_log: false,
        }
    }

    /// The highlighted repository, if the selection points at one.
    pub open spec fn active_repo_spec(&self) -> Option<GitRepoState> {
        if self.selected_repo < self.repos@.len() {
            Some(self.repos@[self.selected_repo as int])
        } else {
            None
        }
    }

    /// The fields a key leaves alone agree with `other`'s.
    pub open spec fn same_data(&self, other: &GitState) -> bool {
        &&& self.available == other.available
        &&& self.repos@ == other.repos@
        &&& self.commit_message@ == other.commit_message@
    }

    fn active_repo(&self) -> (r: Option<&GitRepoState>)
        ensures
            match self.active_repo_spec() {
                Some(x) => r is Some && *r->0 == x,
                None => r is None,
            },
    {
        if self.selected_repo < self.repos.len() {
            Some(&self.repos[self.selected_repo])
        } else {
            None
        }
    }

    /// The Git tab's keymap. Left/Right pick the repository (the file
    /// highlight goes back to the top), Up/Down or k/j move the file
    /// highlight; Space stages the highlighted file, or unstages it when it
    /// is staged; `c` opens the commit prompt; `f`/`p`/`P` fetch, pull and
    /// push; `b` switches to the branch after the current one; `l` shows or
    /// hides the log, loading its first page when nothing is loaded; `m`
    /// loads the next page of a shown log that is neither complete nor
    /// already loading. Every action needs a highlighted repository.
    pub fn handle_key(&mut self, key: KeyEvent) -> (r: GitCommand)
        ensures
            final(self).same_data(old(self)),
            ({
                let s = *old(self);
                let active = s.active_repo_spec();
                let code = key.code;
                &&& code == KeyCode::Left ==> final(self).selected_repo == (if s.selected_repo > 0 {
                    s.selected_repo - 1
                } else {
                    0
                }) && final(self).selected_file == 0 && r is Nothing
                &&& code == KeyCode::Right ==> if s.selected_repo + 1 < s.repos@.len() {
                    final(self).selected_repo == s.selected_repo + 1 && final(self).selected_file == 0 && r is Nothing
                } else {
                    final(self).selected_repo == s.selected_repo && final(self).selected_file == s.selected_file
                        && r is Nothing
                }
                &&& (code == KeyCode::Up || code == KeyCode::Char('k')) ==> final(self).selected_repo
                    == s.selected_repo && final(self).selected_file == (if s.selected_file > 0 {
                    s.selected_file - 1
                } else {
                    0
                }) && r is Nothing
                &&& (code == KeyCode::Down || code == KeyCode::Char('j')) ==> final(self).selected_repo
                    == s.selected_repo && final(self).selected_file == (match active {
                    Some(repo) => if s.selected_file + 1 < repo.status@.len() {
                        s.selected_file + 1
                    } else {
                        s.selected_file as int
                    },
                    None => s.selected_file as int,
                }) && r is Nothing
                &&& code != KeyCode::Left && code != KeyCode::Right && code != KeyCode::Up && code
                    != KeyCode::Down && code != KeyCode::Char('k') && code != KeyCode::Char('j')
                    ==> final(self).selected_repo == s.selected_repo && final(self).selected_file
                    == s.selected_file
                &&& code != KeyCode::Char('l') ==> final(self).show_log == s.show_log
                &&& code == KeyCode::Char(' ') ==> match active {
                    Some(repo) => if s.selected_file < repo.status@.len() {
                        let f = repo.status@[s.selected_file as int];
                        if f.staged {
                            r matches GitCommand::Unstage { repo: p, paths } && p@ == repo.path@ && paths@.len()
                                == 1 && paths@[0]@ == f.path@
                        } else {
                            r matches GitCommand::Stage { repo: p, paths } && p@ == repo.path@ && paths@.len()
                                == 1 && paths@[0]@ == f.path@
                        }
                    } else {
                        r is Nothing
                    },
                    None => r is Nothing,
                }
                &&& code == KeyCode::Char('c') ==> match active {
                    Some(repo) => r matches GitCommand::OpenCommitMessage { repo: p, input } && p@ == repo.path@
                        && input@ == s.commit_message@,
                    None => r is Nothing,
                }
                &&& code == KeyCode::Char('f') ==> match active {
                    Some(repo) => r matches GitCommand::Fetch { repo: p } && p@ == repo.path@,
                    None => r is Nothing,
                }
                &&& code == KeyCode::Char('p') ==> match active {
                    Some(repo) => r matches GitCommand::Pull { repo: p } && p@ == repo.path@,
                    None => r is Nothing,
                }
                &&& code == KeyCode::Char('P') ==> match active {
                    Some(repo) => r matches GitCommand::Push { repo: p } && p@ == repo.path@,
                    None => r is Nothing,
                }
                &&& code == KeyCode::Char('b') ==> match active {
                    Some(repo) => if repo.branches@.len() > 1 {
                        let next = (current_branch(repo.branches@) + 1) % (repo.branches@.len() as int);
                        r matches GitCommand::SwitchBranch { repo: p, name } && p@ == repo.path@ && name@
                            == repo.branches@[next].name@
                    } else {
                        r is Nothing
                    },
                    None => r is Nothing,
                }
                &&& code == KeyCode::Char('l') ==> match active {
                    Some(repo) => {
                        &&& final(self).show_log == !s.show_log
                        &&& if !s.show_log && repo.log_len == 0 {
                            r matches GitCommand::Log { repo: p, skip, limit } && p@ == repo.path@ && skip == 0
                                && limit == LOG_PAGE
                        } else {
                            r is Nothing
                        }
                    },
                    None => final(self).show_log == s.show_log && r is Nothing,
                }
                &&& code == KeyCode::Char('m') ==> match active {
                    Some(repo) => if s.show_log && !repo.log_complete && !repo.log_loading {
                        r matches GitCommand::Log { repo: p, skip, limit } && p@ == repo.path@ && skip
                            == #[verifier::truncate] (repo.log_len as u32) && limit == LOG_PAGE
                    } else {
                        r is Nothing
                    },
                    None => r is Nothing,
                }
                &&& !(code == KeyCode::Char(' ') || code == KeyCode::Char('c') || code == KeyCode::Char('f')
                    || code == KeyCode::Char('p') || code == KeyCode::Char('P') || code == KeyCode::Char('b')
                    || code == KeyCode::Char('l') || code == KeyCode::Char('m')) ==> r is Nothing
            }),
    {
        let code = key.code;
        if code == KeyCode::Left {
            self.selected_repo = self.selected_repo.saturating_sub(1);
            self.selected_file = 0;
            return GitCommand::Nothing;
        }
        if code == KeyCode::Right {
            if self.selected_repo < self.repos.len() && self.selected_repo + 1 < self.repos.len() {
                self.selected_repo = self.selected_repo + 1;
                self.selected_file = 0;
            }
            return GitCommand::Nothing;
        }
        if code == KeyCode::Up || code == KeyCode::Char('k') {
            self.selected_file = self.selected_file.saturating_sub(1);
            return GitCommand::Nothing;
        }
        if code == KeyCode::Down || code == KeyCode::Char('j') {
            let next = match self.active_repo() {
                Some(repo) => if self.selected_file < repo.status.len() && self.selected_file + 1
                    < repo.status.len() {
                    self.selected_file + 1
                } else {
                    self.selected_file
                },
                None => self.selected_file,
            };
            self.selected_file = next;
            return GitCommand::Nothing;
        }
        if code == KeyCode::Char('l') {
            let log_empty = match self.active_repo() {
                Some(repo) => Some(repo.log_len == 0),
                None => None,
            };
            match log_empty {
                Some(empty) => {
                    self.show_log = !self.show_log;
                    if self.show_log && empty {
                        let repo = self.repos[self.selected_repo].path.clone();
                        return GitCommand::Log { repo, skip: 0, limit: LOG_PAGE };
                    }
                },
                None => {},
            }
            return GitCommand::Nothing;
        }
        let repo = match self.active_repo() {
            Some(repo) => repo,
            None => {
                return GitCommand::Nothing;
            },
        };
        match code {
            KeyCode::Char(' ') => {
                if self.selected_file < repo.status.len() {
                    let file = &repo.status[self.selected_file];
                    let mut paths: Vec<String> = Vec::new();
                    paths.push(file.path.clone());
                    if file.staged {
                        GitCommand::Unstage { repo: repo.path.clone(), paths }
                    } else {
                        GitCommand::Stage { repo: repo.path.clone(), paths }
                    }
                } else {
                    GitCommand::Nothing
                }
            },
            KeyCode::Char('c') => GitCommand::OpenCommitMessage {
                repo: repo.path.clone(),
                input: self.commit_message.clone(),
            },
            KeyCode::Char('f') => GitCommand::Fetch { repo: repo.path.clone() },
            KeyCode::Char('p') => GitCommand::Pull { repo: repo.path.clone() },
            KeyCode::Char('P') => GitCommand::Push { repo: repo.path.clone() },
            KeyCode::Char('b') => {
                let n = repo.branches.len();
                if n > 1 {
                    let mut current: usize = 0;
                    let mut k: usize = 0;
                    let mut found = false;
                    proof {
                        lemma_current_branch(repo.branches@);
                    }
                    while k < n
                        invariant
                            n == repo.branches@.len(),
                            k <= n,
                            !found ==> forall|j: int| 0 <= j < k ==> !(#[trigger] repo.branches@[j]).is_current,
                            found ==> current == current_branch(repo.branches@),
                            !found ==> current == 0,
                            current < n,
                            0 <= current_branch(repo.branches@) < n,
                            (exists|j: int| 0 <= j < n && repo.branches@[j].is_current) ==> {
                                &&& repo.branches@[current_branch(repo.branches@)].is_current
                                &&& forall|j: int|
                                    0 <= j < current_branch(repo.branches@) ==> !(
                                    #[trigger] repo.branches@[j]).is_current
                            },
                            (forall|j: int| 0 <= j < n ==> !(#[trigger] repo.branches@[j]).is_current)
                                ==> current_branch(repo.branches@) == 0,
                        decreases n - k,
                    {
                        if !found && repo.branches[k].is_current {
                            proof {
                                let cb = current_branch(repo.branches@);
                                if cb < k {
                                    assert(!repo.branches@[cb].is_current);
                                }
                                if cb > k {
                                    assert(!repo.branches@[k as int].is_current);
                                }
                            }
                            current = k;
                            found = true;
                        }
                        k = k + 1;
                    }
                    assert(current == current_branch(repo.branches@));
                    let next = (current + 1) % n;
                    GitCommand::SwitchBranch { repo: repo.path.clone(), name: repo.branches[next].name.clone() }
                } else {
                    GitCommand::Nothing
                }
            },
            KeyCode::Char('m') => {
                if self.show_log && !repo.log_complete && !repo.log_loading {
                    GitCommand::Log { repo: repo.path.clone(), skip: #[verifier::truncate] (repo.log_len as u32), limit: LOG_PAGE }
                } else {
                    GitCommand::Nothing
                }
            },
            _ => GitCommand::Nothing,
        }
    }
}

/// What a key does to the open commit-message prompt: the text left in
/// the prompt (none once it closed) and the message to commit. Enter
/// commits the trimmed text when it is not empty; Esc closes it.
pub fn commit_message_key(input: String, key: KeyEvent) -> (r: (Option<String>, Option<String>))
    ensures
        key.code != KeyCode::Enter && key.code != KeyCode::Esc ==> r.0 is Some && r.0->0@ == edited(input@, key)
            && r.1 is None,
        key.code == KeyCode::Esc ==> r.0 is None && r.1 is None,
        key.code == KeyCode::Enter ==> r.0 is None && if trim_spec(input@).len() > 0 {
            r.1 is Some && r.1->0@ == trim_spec(input@)
        } else {
            r.1 is None
        },
{
    let mut text = input;
    match apply(&mut text, key) {
        TextInputAction::Submit => {
            proof {
                lemma_trim_blank(text@);
            }
            if !is_blank(text.as_str()) {
                (None, Some(trim(text.as_str())))
            } else {
                (None, None)
            }
        },
        TextInputAction::Cancel => (None, None),
        TextInputAction::Continue => (Some(text), None),
    }
}

impl GitState {
    /// Index of the repository at `path`, the first one if several are.
    pub fn find_repo(&self, path: &String) -> (r: Option<usize>)
        ensures
            match repo_index(self.repos@, path@) {
                Some(i) => r == Some(i as usize),
                None => r is None,
            },
            match r {
                Some(i) => i < self.repos@.len() && self.repos@[i as int].path@ == path@,
                None => true,
            },
    {
        proof {
            lemma_repo_index(self.repos@, path@);
        }
        let mut i: usize = 0;
        while i < self.repos.len()
            invariant
                i <= self.repos@.len(),
                forall|k: int| 0 <= k < i ==> (#[trigger] self.repos@[k]).path@ != path@,
                match repo_index(self.repos@, path@) {
                    Some(j) => 0 <= j < self.repos@.len() && self.repos@[j].path@ == path@ && forall|k: int|
                        0 <= k < j ==> (#[trigger] self.repos@[k]).path@ != path@,
                    None => forall|k: int| 0 <= k < self.repos@.len() ==> (#[trigger] self.repos@[k]).path@ != path@,
                },
            decreases self.repos@.len() - i,
        {
            if self.repos[i].path == *path {
                return Some(i);
            }
            i = i + 1;
        }
        None
    }

    /// Repositories found in the workspace: each path not known yet is
    /// added, in order, with nothing known of it.
    pub fn add_repos(&mut self, paths: &Vec<String>)
        ensures
            final(self).selected_repo == old(self).selected_repo,
            final(self).selected_file == old(self).selected_file,
            final(self).show_log == old(self).show_log,
            final(self).commit_message@ == old(self).commit_message@,
            final(self).repos@.len() >= old(self).repos@.len(),
            final(self).repos@.take(old(self).repos@.len() as int) == old(self).repos@,
            forall|i: int| 0 <= i < paths@.len() ==> repo_index(final(self).repos@, (#[trigger] paths@[i])@) is Some,
            forall|k: int|
                old(self).repos@.len() <= k < final(self).repos@.len() ==> {
                    let n = #[trigger] final(self).repos@[k];
                    &&& exists|i: int| 0 <= i < paths@.len() && paths@[i]@ == n.path@
                    &&& repo_index(final(self).repos@, n.path@) == Some(k)
                    &&& n.status@.len() == 0 && n.branches@.len() == 0 && n.log_len == 0
                    &&& !n.log_loading && !n.log_complete
                },
    {
        let ghost start = self.repos@;
        let mut i: usize = 0;
        while i < paths.len()
            invariant
                i <= paths@.len(),
                self.repos@.len() >= start.len(),
                self.repos@.take(start.len() as int) == start,
                forall|j: int| 0 <= j < i ==> repo_index(self.repos@, (#[trigger] paths@[j])@) is Some,
                forall|k: int|
                    start.len() <= k < self.repos@.len() ==> {
                        let n = #[trigger] self.repos@[k];
                        &&& exists|j: int| 0 <= j < paths@.len() && paths@[j]@ == n.path@
                        &&& repo_index(self.repos@, n.path@) == Some(k)
                        &&& n.status@.len() == 0 && n.branches@.len() == 0 && n.log_len == 0
                        &&& !n.log_loading && !n.log_complete
                    },
                self.selected_repo == old(self).selected_repo,
                self.selected_file == old(self).selected_file,
                self.show_log == old(self).show_log,
                self.commit_message@ == old(self).commit_message@,
            decreases paths@.len() - i,
        {
            let p = &paths[i];
            let found = self.find_repo(p);
            if found.is_none() {
                let ghost before = self.repos@;
                proof {
                    lemma_repo_index(before, p@);
                }
                self.repos.push(GitRepoState::new(p.clone()));
                proof {
                    let after = self.repos@;
                    assert(after.drop_last() == before);
                    assert(after.take(start.len() as int) == before.take(start.len() as int));
                    assert forall|q: Seq<char>| #[trigger] repo_index(before, q) is Some implies repo_index(
                        after,
                        q,
                    ) == repo_index(before, q) by {
                    }
                    assert(repo_index(after, p@) == Some(before.len() as int));
                    assert forall|j: int| 0 <= j <= i implies repo_index(after, (#[trigger] paths@[j])@) is Some by {
                        if j < i {
                            assert(repo_index(before, paths@[j]@) is Some);
                        }
                    }
                    assert forall|k: int| start.len() <= k < after.len() implies {
                        let n = #[trigger] after[k];
                        &&& exists|j: int| 0 <= j < paths@.len() && paths@[j]@ == n.path@
                        &&& repo_index(after, n.path@) == Some(k)
                        &&& n.status@.len() == 0 && n.branches@.len() == 0 && n.log_len == 0
                        &&& !n.log_loading && !n.log_complete
                    } by {
                        if k < before.len() {
                            assert(after[k] == before[k]);
                            assert(repo_index(before, before[k].path@) == Some(k));
                        } else {
                            assert(paths@[i as int]@ == after[k].path@);
                        }
                    }
                }
            }
            i = i + 1;
        }
    }

    /// A refresh of the repository at `path`: its changed files and its
    /// branches, each where it could be read.
    pub fn on_refreshed(&mut self, path: &String, status: Option<Vec<GitFileEntry>>, branches: Option<Vec<GitBranch>>)
        ensures
            final(self).selected_repo == old(self).selected_repo,
            final(self).selected_file == old(self).selected_file,
            final(self).show_log == old(self).show_log,
            final(self).commit_message@ == old(self).commit_message@,
            final(self).repos@.len() == old(self).repos@.len(),
            match repo_index(old(self).repos@, path@) {
                Some(i) => {
                    let (a, b) = (old(self).repos@[i], final(self).repos@[i]);
                    &&& b.path == a.path
                    &&& b.status@ == (match status {
                        Some(s) => s@,
                        None => a.status@,
                    })
                    &&& b.branches@ == (match branches {
                        Some(s) => s@,
                        None => a.branches@,
                    })
                    &&& b.log_len == a.log_len && b.log_loading == a.log_loading && b.log_complete == a.log_complete
                    &&& forall|k: int|
                        0 <= k < old(self).repos@.len() && k != i ==> final(self).repos@[k] == old(self).repos@[k]
                },
                None => final(self).repos@ == old(self).repos@,
            },
    {
        proof {
            lemma_repo_index(self.repos@, path@);
        }
        match self.find_repo(path) {
            Some(i) => {
                let ghost before = self.repos@;
                let mut repo = self.repos.remove(i);
                match status {
                    Some(s) => {
                        repo.status = s;
                    },
                    None => {},
                }
                match branches {
                    Some(b) => {
                        repo.branches = b;
                    },
                    None => {},
                }
                let ghost updated = repo;
                self.repos.insert(i, repo);
                assert(self.repos@ =~= before.update(i as int, updated));
            },
            None => {},
        }
    }

    /// A page of the log of the repository at `path` arrived, loaded after
    /// the first `skip` entries: `Some(n)` with its entry count, `None` when
    /// it could not be read. The log is no longer loading; a short page
    /// completes it; the first page replaces what was loaded, a later one
    /// adds to it.
    pub fn on_log_loaded(&mut self, path: &String, skip: u32, loaded: Option<usize>)
        ensures
            final(self).selected_repo == old(self).selected_repo,
            final(self).selected_file == old(self).selected_file,
            final(self).show_log == old(self).show_log,
            final(self).commit_message@ == old(self).commit_message@,
            final(self).repos@.len() == old(self).repos@.len(),
            match repo_index(old(self).repos@, path@) {
                Some(i) => {
                    let (a, b) = (old(self).repos@[i], final(self).repos@[i]);
                    &&& b.path == a.path && b.status == a.status && b.branches == a.branches
                    &&& !b.log_loading
                    &&& b.log_complete == (a.log_complete || (loaded is Some && loaded->0 < LOG_PAGE))
                    &&& b.log_len == (match loaded {
                        Some(n) => if skip == 0 {
                            n as int
                        } else if a.log_len + n <= usize::MAX {
                            a.log_len + n
                        } else {
                            usize::MAX as int
                        },
                        None => a.log_len as int,
                    })
                    &&& forall|k: int|
                        0 <= k < old(self).repos@.len() && k != i ==> final(self).repos@[k] == old(self).repos@[k]
                },
                None => final(self).repos@ == old(self).repos@,
            },
    {
        proof {
            lemma_repo_index(self.repos@, path@);
        }
        match self.find_repo(path) {
            Some(i) => {
                let ghost before = self.repos@;
                let mut repo = self.repos.remove(i);
                repo.log_loading = false;
                match loaded {
                    Some(n) => {
                        if n < LOG_PAGE as usize {
                            repo.log_complete = true;
                        }
                        repo.log_len = if skip == 0 {
                            n
                        } else {
                            repo.log_len.saturating_add(n)
                        };
                    },
                    None => {},
                }
                let ghost updated = repo;
                self.repos.insert(i, repo);
                assert(self.repos@ =~= before.update(i as int, updated));
            },
            None => {},
        }
    }

    /// A commit went through: the draft message is cleared.
    pub fn clear_commit_message(&mut self)
        ensures
            final(self).commit_message@ == Seq::<char>::empty(),
            final(self).repos@ == old(self).repos@,
            final(self).selected_repo == old(self).selected_repo,
            final(self).selected_file == old(self).selected_file,
            final(self).show_log == old(self).show_log,
    {
        self.commit_message = String::new();
    }
}

} // verus!
