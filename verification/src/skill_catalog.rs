//! The enabled-skill catalog that decides when the workspace may compact a skill-document read.
//!
//! A read of a skill document is shown compactly only when an unambiguous command shape, a
//! successful completion, and a loaded catalog of enabled skills all agree. The catalog keeps,
//! per working directory, a refresh generation and a load state. A refresh hands out a ticket
//! naming the generation it belongs to; a response is applied only while every ticket it answers
//! is still current, so a response to a refresh that was invalidated in the meantime is ignored.
//!
//! Paths are carried as the strings of their path URIs. A skill document's fingerprint is the
//! SHA-256 digest of its contents, read by the caller (`None` when the path is not a readable
//! regular file).

use sha2::Digest;
use vstd::prelude::*;

verus! {

/// The SHA-256 digest of a byte string, as sha2 computes it.
pub uninterp spec fn sha256_digest(data: Seq<u8>) -> Seq<u8>;

/// sha2's `Sha256::digest`: the SHA-256 digest of `data`, 32 bytes.
#[verifier::external_body]
fn sha256(data: &[u8]) -> (r: [u8; 32])
    ensures
        r@ == sha256_digest(data@),
{
    sha2::Sha256::digest(data).into()
}

/// How a command of the workspace ended.
#[derive(Clone, Copy, Debug, PartialEq, Eq, Structural)]
pub enum WorkspaceCommandOutcome {
    Pending,
    Succeeded,
    Failed,
}

/// The status the app server reports for a command execution.
#[derive(Clone, Copy, Debug, PartialEq, Eq, Structural)]
pub enum CommandExecutionStatus {
    InProgress,
    Completed,
    Failed,
    Declined,
}

/// A command succeeded when it completed with exit code 0.
pub fn completion_outcome(status: CommandExecutionStatus, exit_code: Option<i32>) -> (r: WorkspaceCommandOutcome)
    ensures
        r == if status == CommandExecutionStatus::Completed && exit_code == Some(0i32) {
            WorkspaceCommandOutcome::Succeeded
        } else {
            WorkspaceCommandOutcome::Failed
        },
{
    let completed = match status {
        CommandExecutionStatus::Completed => true,
        _ => false,
    };
    let zero = match exit_code {
        Some(code) => code == 0,
        None => false,
    };
    if completed && zero {
        WorkspaceCommandOutcome::Succeeded
    } else {
        WorkspaceCommandOutcome::Failed
    }
}

/// The compact label of a confirmed skill read.
#[derive(Clone, Debug)]
pub struct WorkspaceReadSummary {
    pub name: String,
}

/// A command that reads exactly one skill document.
#[derive(Clone, Debug)]
pub struct WorkspaceSkillReadCandidate {
    /// Path URI of the document.
    pub document: String,
    /// File name of the document.
    pub filename: String,
    /// Path URI of the working directory.
    pub cwd: String,
    /// The working directory as an absolute path, when its URI has one.
    pub cwd_path: Option<String>,
    /// The command printed the working directory first (`pwd && ...`).
    pub requires_pwd_output: bool,
}

/// A skill document of the catalog.
#[derive(Clone, Debug)]
pub struct WorkspaceSkillRoot {
    pub document: String,
    pub fingerprint: [u8; 32],
    pub name: String,
}

pub struct RootModel {
    pub document: Seq<char>,
    pub fingerprint: Seq<u8>,
    pub name: Seq<char>,
}

impl View for WorkspaceSkillRoot {
    type V = RootModel;

    open spec fn view(&self) -> RootModel {
        RootModel { document: self.document@, fingerprint: self.fingerprint@, name: self.name@ }
    }
}

/// The catalog's load state for one working directory.
#[derive(Clone, Debug)]
pub enum WorkspaceCatalogState {
    Unrequested,
    Loading,
    Ready(Vec<WorkspaceSkillRoot>),
    Failed,
}

pub enum StateModel {
    Unrequested,
    Loading,
    Ready(Seq<RootModel>),
    Failed,
}

pub open spec fn roots_view(roots: Seq<WorkspaceSkillRoot>) -> Seq<RootModel> {
    roots.map_values(|r: WorkspaceSkillRoot| r@)
}

impl View for WorkspaceCatalogState {
    type V = StateModel;

    open spec fn view(&self) -> StateModel {
        match self {
            WorkspaceCatalogState::Unrequested => StateModel::Unrequested,
            WorkspaceCatalogState::Loading => StateModel::Loading,
            WorkspaceCatalogState::Ready(roots) => StateModel::Ready(roots_view(roots@)),
            WorkspaceCatalogState::Failed => StateModel::Failed,
        }
    }
}

/// A refresh of one working directory's catalog, at the generation it was begun.
#[derive(Clone, Debug)]
pub struct WorkspaceSkillRefreshTicket {
    pub cwd: String,
    pub generation: u64,
}

impl WorkspaceSkillRefreshTicket {
    pub fn is_for_cwd(&self, cwd: &String) -> (r: bool)
        ensures
            r == (self.cwd@ == cwd@),
    {
        self.cwd == *cwd
    }
}

/// One skill as the app server lists it; `contents` are the document's bytes when it is a
/// readable regular file.
#[derive(Clone, Debug)]
pub struct SkillMetadata {
    pub name: String,
    /// Path URI of the skill document.
    pub path: String,
    pub enabled: bool,
    pub contents: Option<Vec<u8>>,
}

/// The skills of one working directory.
#[derive(Clone, Debug)]
pub struct SkillsListEntry {
    /// Path URI of the working directory.
    pub cwd: String,
    pub skills: Vec<SkillMetadata>,
    /// The listing reported errors.
    pub has_errors: bool,
}

#[derive(Clone, Debug)]
pub struct SkillsListResponse {
    pub data: Vec<SkillsListEntry>,
}

/// The fingerprint of unreadable contents.
pub open spec fn zero_fingerprint() -> Seq<u8> {
    Seq::new(32, |i: int| 0u8)
}

pub open spec fn fingerprint_spec(contents: Option<Vec<u8>>) -> Seq<u8> {
    match contents {
        Some(bytes) => sha256_digest(bytes@),
        None => zero_fingerprint(),
    }
}

/// The catalog root of a listed skill.
pub open spec fn root_of(skill: SkillMetadata) -> RootModel {
    RootModel { document: skill.path@, fingerprint: fingerprint_spec(skill.contents), name: skill.name@ }
}

/// The roots of the enabled skills among the first `k`, in order.
pub open spec fn enabled_roots(skills: Seq<SkillMetadata>, k: int) -> Seq<RootModel>
    decreases k,
{
    if k <= 0 {
        Seq::empty()
    } else if skills[k - 1].enabled {
        enabled_roots(skills, k - 1).push(root_of(skills[k - 1]))
    } else {
        enabled_roots(skills, k - 1)
    }
}

/// The state a listing entry loads: failed when it reported errors, else its enabled skills.
pub open spec fn state_from_entry_spec(entry: SkillsListEntry) -> StateModel {
    if entry.has_errors {
        StateModel::Failed
    } else {
        StateModel::Ready(enabled_roots(entry.skills@, entry.skills@.len() as int))
    }
}

/// The catalog root of a listed skill.
pub fn root_from_skill(skill: &SkillMetadata) -> (r: WorkspaceSkillRoot)
    ensures
        r@ == root_of(*skill),
{
    let fingerprint = match &skill.contents {
        Some(bytes) => sha256(bytes.as_slice()),
        None => {
            let zero = [0u8; 32];
            assert(zero@ =~= zero_fingerprint());
            zero
        },
    };
    WorkspaceSkillRoot { document: skill.path.clone(), fingerprint, name: skill.name.clone() }
}

/// The state a listing entry loads.
pub fn state_from_response_entry(entry: &SkillsListEntry) -> (r: WorkspaceCatalogState)
    ensures
        r@ == state_from_entry_spec(*entry),
{
    if entry.has_errors {
        return WorkspaceCatalogState::Failed;
    }
    let mut roots: Vec<WorkspaceSkillRoot> = Vec::new();
    let n = entry.skills.len();
    let mut i: usize = 0;
    while i < n
        invariant
            0 <= i <= n,
            n == entry.skills@.len(),
            roots_view(roots@) == enabled_roots(entry.skills@, i as int),
        decreases n - i,
    {
        if entry.skills[i].enabled {
            let root = root_from_skill(&entry.skills[i]);
            roots.push(root);
        }
        i += 1;
        assert(roots_view(roots@) =~= enabled_roots(entry.skills@, i as int));
    }
    WorkspaceCatalogState::Ready(roots)
}

proof fn lemma_enabled_roots(skills: Seq<SkillMetadata>, k: int)
    requires
        0 <= k <= skills.len(),
    ensures
        enabled_roots(skills, k).len() <= k,
        forall|i: int|
            0 <= i < k && #[trigger] skills[i].enabled ==> enabled_roots(skills, k).contains(root_of(skills[i])),
    decreases k,
{
    if k > 0 {
        lemma_enabled_roots(skills, k - 1);
        let prev = enabled_roots(skills, k - 1);
        let cur = enabled_roots(skills, k);
        assert(skills[k - 1].enabled ==> cur == prev.push(root_of(skills[k - 1])));
        assert(!skills[k - 1].enabled ==> cur == prev);
        assert forall|i: int| 0 <= i < k && #[trigger] skills[i].enabled implies cur.contains(root_of(skills[i])) by {
            if i < k - 1 {
                let j = choose|j: int| 0 <= j < prev.len() && prev[j] == root_of(skills[i]);
                if skills[k - 1].enabled {
                    assert(cur[j] == prev[j]);
                }
            } else {
                assert(cur[cur.len() - 1] == root_of(skills[i]));
            }
        }
    }
}

/// The roots of the enabled skills of a listing, in listing order.
pub open spec fn enabled_skill_roots(skills: Seq<SkillMetadata>) -> Seq<RootModel> {
    skills.filter(|s: SkillMetadata| s.enabled).map_values(|s: SkillMetadata| root_of(s))
}

proof fn lemma_enabled_roots_filter(skills: Seq<SkillMetadata>, k: int)
    requires
        0 <= k <= skills.len(),
    ensures
        enabled_roots(skills, k) == enabled_skill_roots(skills.take(k)),
    decreases k,
{
    reveal(Seq::filter);
    let t = skills.take(k);
    if k > 0 {
        lemma_enabled_roots_filter(skills, k - 1);
        assert(t.drop_last() =~= skills.take(k - 1));
        assert(t.last() == skills[k - 1]);
        let f = t.drop_last().filter(|s: SkillMetadata| s.enabled);
        if skills[k - 1].enabled {
            assert(t.filter(|s: SkillMetadata| s.enabled) == f.push(skills[k - 1]));
            assert(f.push(skills[k - 1]).map_values(|s: SkillMetadata| root_of(s)) =~= f.map_values(
                |s: SkillMetadata| root_of(s),
            ).push(root_of(skills[k - 1])));
        } else {
            assert(t.filter(|s: SkillMetadata| s.enabled) == f);
        }
    } else {
        assert(t =~= Seq::<SkillMetadata>::empty());
        assert(enabled_skill_roots(t) =~= Seq::<RootModel>::empty());
    }
}

/// A listing entry without errors loads, in listing order, the root of each enabled skill of it
/// and nothing else, so every enabled skill has its root in the loaded state; an entry with
/// errors loads the failed state.
pub proof fn law_listing_loads_every_enabled_skill(entry: SkillsListEntry)
    ensures
        entry.has_errors ==> state_from_entry_spec(entry) is Failed,
        !entry.has_errors ==> state_from_entry_spec(entry) == StateModel::Ready(
            enabled_skill_roots(entry.skills@),
        ),
        !entry.has_errors ==> forall|i: int|
            0 <= i < entry.skills@.len() && #[trigger] entry.skills@[i].enabled ==> enabled_skill_roots(
                entry.skills@,
            ).contains(root_of(entry.skills@[i])),
{
    let skills = entry.skills@;
    let n = skills.len() as int;
    lemma_enabled_roots(skills, n);
    lemma_enabled_roots_filter(skills, n);
    assert(skills.take(n) =~= skills);
}

/// The catalog entry of one working directory.
#[derive(Clone, Debug)]
pub struct WorkspaceSkillCatalogEntry {
    pub cwd: String,
    pub generation: u64,
    pub state: WorkspaceCatalogState,
}

pub struct EntryModel {
    pub cwd: Seq<char>,
    pub generation: u64,
    pub state: StateModel,
}

impl View for WorkspaceSkillCatalogEntry {
    type V = EntryModel;

    open spec fn view(&self) -> EntryModel {
        EntryModel { cwd: self.cwd@, generation: self.generation, state: self.state@ }
    }
}

/// The catalogs of all working directories seen so far.
#[derive(Debug)]
pub struct WorkspaceSkillCatalog {
    pub entries: Vec<WorkspaceSkillCatalogEntry>,
}

pub open spec fn entries_view(entries: Seq<WorkspaceSkillCatalogEntry>) -> Seq<EntryModel> {
    entries.map_values(|e: WorkspaceSkillCatalogEntry| e@)
}

impl View for WorkspaceSkillCatalog {
    type V = Seq<EntryModel>;

    open spec fn view(&self) -> Seq<EntryModel> {
        entries_view(self.entries@)
    }
}

/// No working directory has two entries.
pub open spec fn unique_cwds(es: Seq<EntryModel>) -> bool {
    forall|i: int, j: int| 0 <= i < j < es.len() ==> #[trigger] es[i].cwd != #[trigger] es[j].cwd
}

/// The position of the entry of `cwd`.
pub open spec fn entry_index(es: Seq<EntryModel>, cwd: Seq<char>) -> Option<int> {
    if exists|i: int| 0 <= i < es.len() && #[trigger] es[i].cwd == cwd {
        Some(choose|i: int| 0 <= i < es.len() && #[trigger] es[i].cwd == cwd)
    } else {
        None
    }
}

/// The entry of `cwd`, if the catalog has one.
pub open spec fn lookup(es: Seq<EntryModel>, cwd: Seq<char>) -> Option<EntryModel> {
    match entry_index(es, cwd) {
        Some(i) => Some(es[i]),
        None => None,
    }
}

/// The catalog with `cwd`'s state set, adding a fresh entry (generation 0) if it has none.
pub open spec fn set_state_spec(es: Seq<EntryModel>, cwd: Seq<char>, state: StateModel) -> Seq<EntryModel> {
    match entry_index(es, cwd) {
        Some(i) => es.update(i, EntryModel { state, ..es[i] }),
        None => es.push(EntryModel { cwd, generation: 0, state }),
    }
}

/// The ticket names the generation of its working directory's entry.
pub open spec fn is_current_spec(es: Seq<EntryModel>, ticket: WorkspaceSkillRefreshTicket) -> bool {
    lookup(es, ticket.cwd@) matches Some(e) && e.generation == ticket.generation
}

pub open spec fn all_current(es: Seq<EntryModel>, tickets: Seq<WorkspaceSkillRefreshTicket>) -> bool {
    forall|k: int| 0 <= k < tickets.len() ==> is_current_spec(es, #[trigger] tickets[k])
}

/// The indices of the listing entries of `cwd` among the first `k`.
pub open spec fn matches_of(data: Seq<SkillsListEntry>, cwd: Seq<char>, k: int) -> Seq<int>
    decreases k,
{
    if k <= 0 {
        Seq::empty()
    } else if data[k - 1].cwd@ == cwd {
        matches_of(data, cwd, k - 1).push(k - 1)
    } else {
        matches_of(data, cwd, k - 1)
    }
}

/// The state a response loads for `cwd`: that of its one listing entry, failed when it has none
/// or several.
pub open spec fn response_state_for(data: Seq<SkillsListEntry>, cwd: Seq<char>) -> StateModel {
    let m = matches_of(data, cwd, data.len() as int);
    if m.len() == 1 {
        state_from_entry_spec(data[m[0]])
    } else {
        StateModel::Failed
    }
}

/// The catalog after the states of the first `k` tickets' directories were set from a response.
pub open spec fn apply_tickets(
    es: Seq<EntryModel>,
    data: Seq<SkillsListEntry>,
    tickets: Seq<WorkspaceSkillRefreshTicket>,
    k: int,
) -> Seq<EntryModel>
    decreases k,
{
    if k <= 0 {
        es
    } else {
        let prev = apply_tickets(es, data, tickets, k - 1);
        set_state_spec(prev, tickets[k - 1].cwd@, response_state_for(data, tickets[k - 1].cwd@))
    }
}

/// The catalog and the answer after a response to `tickets`: applied only when there are
/// tickets and all of them are current.
pub open spec fn sync_if_current_spec(
    es: Seq<EntryModel>,
    data: Seq<SkillsListEntry>,
    tickets: Seq<WorkspaceSkillRefreshTicket>,
) -> (Seq<EntryModel>, bool) {
    if tickets.len() == 0 || !all_current(es, tickets) {
        (es, false)
    } else {
        (apply_tickets(es, data, tickets, tickets.len() as int), true)
    }
}

/// The catalog after the first `k` listing entries were loaded.
pub open spec fn sync_spec(es: Seq<EntryModel>, data: Seq<SkillsListEntry>, k: int) -> Seq<EntryModel>
    decreases k,
{
    if k <= 0 {
        es
    } else {
        set_state_spec(sync_spec(es, data, k - 1), data[k - 1].cwd@, state_from_entry_spec(data[k - 1]))
    }
}

/// The catalog after the first `k` directories were marked failed.
pub open spec fn mark_failed_spec(es: Seq<EntryModel>, cwds: Seq<String>, k: int) -> Seq<EntryModel>
    decreases k,
{
    if k <= 0 {
        es
    } else {
        set_state_spec(mark_failed_spec(es, cwds, k - 1), cwds[k - 1]@, StateModel::Failed)
    }
}

/// The catalog after the tickets' directories were marked failed, when all tickets are current.
pub open spec fn mark_failed_if_current_spec(es: Seq<EntryModel>, tickets: Seq<WorkspaceSkillRefreshTicket>) -> (
    Seq<EntryModel>,
    bool,
) {
    if tickets.len() == 0 || !all_current(es, tickets) {
        (es, false)
    } else {
        (mark_failed_spec(es, tickets.map_values(|t: WorkspaceSkillRefreshTicket| t.cwd), tickets.len() as int), true)
    }
}

/// Generation `g` advanced by one, saturating.
pub open spec fn next_generation(g: u64) -> u64 {
    if g == u64::MAX {
        u64::MAX
    } else {
        (g + 1) as u64
    }
}

/// Every entry advanced to its next generation and back to unrequested.
pub open spec fn invalidate_spec(es: Seq<EntryModel>) -> Seq<EntryModel> {
    es.map_values(
        |e: EntryModel| EntryModel { generation: next_generation(e.generation), state: StateModel::Unrequested, ..e },
    )
}

/// The catalog and the answer after asking to refresh `cwd`: a refresh begins only for an
/// unrequested directory; a directory seen for the first time gets an entry either way.
pub open spec fn begin_refresh_spec(es: Seq<EntryModel>, cwd: Seq<char>) -> (Seq<EntryModel>, bool) {
    match entry_index(es, cwd) {
        Some(i) => if es[i].state is Unrequested {
            (
                es.update(
                    i,
                    EntryModel { generation: next_generation(es[i].generation), state: StateModel::Loading, ..es[i] },
                ),
                true,
            )
        } else {
            (es, false)
        },
        None => (es.push(EntryModel { cwd, generation: 1, state: StateModel::Loading }), true),
    }
}

/// The root lists `document`.
pub open spec fn is_root_for(root: RootModel, document: Seq<char>) -> bool {
    root.document == document
}

/// The first root of `roots` for `document`.
pub open spec fn root_index(roots: Seq<RootModel>, document: Seq<char>) -> Option<int> {
    if exists|i: int| 0 <= i < roots.len() && is_root_for(#[trigger] roots[i], document) {
        Some(
            choose|i: int|
                0 <= i < roots.len() && is_root_for(#[trigger] roots[i], document) && forall|j: int|
                    0 <= j < i ==> !is_root_for(#[trigger] roots[j], document),
        )
    } else {
        None
    }
}

/// The label of a confirmed read: `<file> (<skill> skill)`.
pub open spec fn summary_name(filename: Seq<char>, skill: Seq<char>) -> Seq<char> {
    filename + seq![' ', '('] + skill + seq![' ', 's', 'k', 'i', 'l', 'l', ')']
}

/// The summary of a candidate read when its directory's catalog is loaded and lists its
/// document.
pub open spec fn summary_spec(es: Seq<EntryModel>, candidate: WorkspaceSkillReadCandidate) -> Option<Seq<char>> {
    match lookup(es, candidate.cwd@) {
        Some(e) => match e.state {
            StateModel::Ready(roots) => match root_index(roots, candidate.document@) {
                Some(i) => Some(summary_name(candidate.filename@, roots[i].name)),
                None => None,
            },
            _ => None,
        },
        None => None,
    }
}

/// The root lists `document` with `fingerprint`.
pub open spec fn root_matches(root: RootModel, document: Seq<char>, fingerprint: Seq<u8>) -> bool {
    root.document == document && root.fingerprint == fingerprint
}

/// The candidate's document is listed with the fingerprint of the given contents.
pub open spec fn matches_document_spec(
    es: Seq<EntryModel>,
    candidate: WorkspaceSkillReadCandidate,
    contents: Option<Vec<u8>>,
) -> bool {
    document_matches(es, candidate.cwd@, candidate.document@, contents)
}

/// The catalog of `cwd` is loaded and lists `document` with the fingerprint of the contents.
pub open spec fn document_matches(
    es: Seq<EntryModel>,
    cwd: Seq<char>,
    document: Seq<char>,
    contents: Option<Vec<u8>>,
) -> bool {
    match contents {
        None => false,
        Some(bytes) => match lookup(es, cwd) {
            Some(e) => match e.state {
                StateModel::Ready(roots) => exists|i: int|
                    0 <= i < roots.len() && root_matches(#[trigger] roots[i], document, sha256_digest(bytes@)),
                _ => false,
            },
            None => false,
        },
    }
}

proof fn lemma_matching_root(
    es: Seq<EntryModel>,
    candidate: WorkspaceSkillReadCandidate,
    contents: Option<Vec<u8>>,
    rv: Seq<RootModel>,
    j: int,
)
    requires
        lookup(es, candidate.cwd@) matches Some(e) && e.state == StateModel::Ready(rv),
        contents matches Some(b) && 0 <= j < rv.len() && root_matches(rv[j], candidate.document@, sha256_digest(b@)),
    ensures
        matches_document_spec(es, candidate, contents),
{
    let b = contents.unwrap();
    let e = lookup(es, candidate.cwd@).unwrap();
    assert(e.state == StateModel::Ready(rv));
    assert(root_matches(rv[j], candidate.document@, sha256_digest(b@)));
    assert(exists|i: int| 0 <= i < rv.len() && root_matches(#[trigger] rv[i], candidate.document@, sha256_digest(b@)));
    match e.state {
        StateModel::Ready(roots) => {
            assert(roots == rv);
        },
        _ => {},
    }
}

proof fn lemma_unique_index(es: Seq<EntryModel>, i: int)
    requires
        unique_cwds(es),
        0 <= i < es.len(),
    ensures
        entry_index(es, es[i].cwd) == Some(i),
{
    let j = choose|j: int| 0 <= j < es.len() && #[trigger] es[j].cwd == es[i].cwd;
    if j != i {
        if j < i {
            assert(es[j].cwd != es[i].cwd);
        } else {
            assert(es[i].cwd != es[j].cwd);
        }
    }
}

proof fn lemma_set_state_unique(es: Seq<EntryModel>, cwd: Seq<char>, state: StateModel)
    requires
        unique_cwds(es),
    ensures
        unique_cwds(set_state_spec(es, cwd, state)),
        set_state_spec(es, cwd, state).len() >= es.len(),
        forall|k: int| 0 <= k < es.len() ==> (#[trigger] set_state_spec(es, cwd, state)[k]).cwd == es[k].cwd
            && set_state_spec(es, cwd, state)[k].generation == es[k].generation,
{
    let r = set_state_spec(es, cwd, state);
    match entry_index(es, cwd) {
        Some(i) => {
            assert forall|a: int, b: int| 0 <= a < b < r.len() implies #[trigger] r[a].cwd != #[trigger] r[b].cwd by {
                assert(r[a].cwd == es[a].cwd && r[b].cwd == es[b].cwd);
            }
        },
        None => {
            assert forall|a: int, b: int| 0 <= a < b < r.len() implies #[trigger] r[a].cwd != #[trigger] r[b].cwd by {
                if b == es.len() {
                    assert(es[a].cwd != cwd);
                } else {
                    assert(es[a].cwd != es[b].cwd);
                }
            }
        },
    }
}

/// Lookups see the same entries in a catalog whose entries keep their directories and
/// generations.
proof fn lemma_currency_kept(es: Seq<EntryModel>, r: Seq<EntryModel>, t: WorkspaceSkillRefreshTicket)
    requires
        unique_cwds(es),
        unique_cwds(r),
        r.len() >= es.len(),
        forall|k: int| 0 <= k < es.len() ==> (#[trigger] r[k]).cwd == es[k].cwd && r[k].generation == es[k].generation,
        is_current_spec(es, t),
    ensures
        is_current_spec(r, t),
{
    let i = entry_index(es, t.cwd@).unwrap();
    assert(r[i].cwd == t.cwd@);
    lemma_unique_index(r, i);
}

impl WorkspaceSkillCatalog {
    pub open spec fn wf(&self) -> bool {
        unique_cwds(self@)
    }

    /// An empty catalog.
    pub fn new() -> (r: Self)
        ensures
            r.wf(),
            r@ == Seq::<EntryModel>::empty(),
    {
        let r = WorkspaceSkillCatalog { entries: Vec::new() };
        assert(r@ =~= Seq::<EntryModel>::empty());
        r
    }

    /// The position of the entry of `cwd`.
    pub fn find_entry(&self, cwd: &String) -> (r: Option<usize>)
        requires
            self.wf(),
        ensures
            match r {
                Some(i) => entry_index(self@, cwd@) == Some(i as int),
                None => entry_index(self@, cwd@) is None,
            },
    {
        let n = self.entries.len();
        let mut i: usize = 0;
        while i < n
            invariant
                0 <= i <= n,
                n == self@.len(),
                n == self.entries@.len(),
                self.wf(),
                forall|k: int| 0 <= k < i ==> #[trigger] self@[k].cwd != cwd@,
            decreases n - i,
        {
            assert(self@[i as int] == self.entries@[i as int]@);
            if self.entries[i].cwd == *cwd {
                proof {
                    lemma_unique_index(self@, i as int);
                }
                return Some(i);
            }
            i += 1;
        }
        None
    }

    /// Sets the state of `cwd`'s entry, adding a fresh entry if it has none.
    fn set_state(&mut self, cwd: &String, state: WorkspaceCatalogState)
        requires
            old(self).wf(),
        ensures
            final(self).wf(),
            final(self)@ == set_state_spec(old(self)@, cwd@, state@),
    {
        proof {
            lemma_set_state_unique(self@, cwd@, state@);
        }
        match self.find_entry(cwd) {
            Some(i) => {
                let ghost before = self@;
                let mut entry = self.entries.remove(i);
                entry.state = state;
                self.entries.insert(i, entry);
                assert(self@ =~= set_state_spec(before, cwd@, state@));
            },
            None => {
                let ghost before = self@;
                self.entries.push(WorkspaceSkillCatalogEntry { cwd: cwd.clone(), generation: 0, state });
                assert(self@ =~= set_state_spec(before, cwd@, state@));
            },
        }
    }

    /// Whether the ticket's generation is its directory's current one.
    pub fn is_current(&self, ticket: &WorkspaceSkillRefreshTicket) -> (r: bool)
        requires
            self.wf(),
        ensures
            r == is_current_spec(self@, *ticket),
    {
        match self.find_entry(&ticket.cwd) {
            Some(i) => {
                assert(self@[i as int] == self.entries@[i as int]@);
                self.entries[i].generation == ticket.generation
            },
            None => false,
        }
    }

    /// Whether every ticket is current.
    fn all_current(&self, tickets: &Vec<WorkspaceSkillRefreshTicket>) -> (r: bool)
        requires
            self.wf(),
        ensures
            r == all_current(self@, tickets@),
    {
        let n = tickets.len();
        let mut k: usize = 0;
        while k < n
            invariant
                0 <= k <= n,
                n == tickets@.len(),
                self.wf(),
                forall|j: int| 0 <= j < k ==> is_current_spec(self@, #[trigger] tickets@[j]),
            decreases n - k,
        {
            if !self.is_current(&tickets[k]) {
                return false;
            }
            k += 1;
        }
        true
    }

    /// The ticket of the refresh that is current for `cwd`.
    pub fn current_ticket(&self, cwd: &String) -> (r: Option<WorkspaceSkillRefreshTicket>)
        requires
            self.wf(),
        ensures
            match lookup(self@, cwd@) {
                Some(e) => r matches Some(t) && t.cwd@ == cwd@ && t.generation == e.generation,
                None => r is None,
            },
    {
        match self.find_entry(cwd) {
            Some(i) => {
                assert(self@[i as int] == self.entries@[i as int]@);
                Some(WorkspaceSkillRefreshTicket { cwd: cwd.clone(), generation: self.entries[i].generation })
            },
            None => None,
        }
    }

    /// Begins a refresh of `cwd` unless one was requested already; returns whether it began.
    pub fn begin_refresh_if_unrequested(&mut self, cwd: &String) -> (r: bool)
        requires
            old(self).wf(),
        ensures
            final(self).wf(),
            (final(self)@, r) == begin_refresh_spec(old(self)@, cwd@),
    {
        let ghost before = self@;
        match self.find_entry(cwd) {
            Some(i) => {
                assert(self@[i as int] == self.entries@[i as int]@);
                let unrequested = match self.entries[i].state {
                    WorkspaceCatalogState::Unrequested => true,
                    _ => false,
                };
                if !unrequested {
                    return false;
                }
                let mut entry = self.entries.remove(i);
                entry.state = WorkspaceCatalogState::Loading;
                entry.generation = entry.generation.saturating_add(1);
                self.entries.insert(i, entry);
                assert(self@ =~= begin_refresh_spec(before, cwd@).0);
                proof {
                    assert forall|a: int, b: int| 0 <= a < b < self@.len() implies #[trigger] self@[a].cwd
                        != #[trigger] self@[b].cwd by {
                        assert(self@[a].cwd == before[a].cwd && self@[b].cwd == before[b].cwd);
                    }
                }
                true
            },
            None => {
                self.entries.push(
                    WorkspaceSkillCatalogEntry {
                        cwd: cwd.clone(),
                        generation: 1,
                        state: WorkspaceCatalogState::Loading,
                    },
                );
                assert(self@ =~= begin_refresh_spec(before, cwd@).0);
                proof {
                    assert forall|a: int, b: int| 0 <= a < b < self@.len() implies #[trigger] self@[a].cwd
                        != #[trigger] self@[b].cwd by {
                        if b == before.len() {
                            assert(before[a].cwd != cwd@);
                        } else {
                            assert(before[a].cwd != before[b].cwd);
                        }
                    }
                }
                true
            },
        }
    }

    /// Loads every listed directory's state from a response, whatever refresh it answers.
    pub fn sync_response(&mut self, response: &SkillsListResponse)
        requires
            old(self).wf(),
        ensures
            final(self).wf(),
            final(self)@ == sync_spec(old(self)@, response.data@, response.data@.len() as int),
    {
        let ghost before = self@;
        let n = response.data.len();
        let mut k: usize = 0;
        while k < n
            invariant
                0 <= k <= n,
                n == response.data@.len(),
                self.wf(),
                self@ == sync_spec(before, response.data@, k as int),
            decreases n - k,
        {
            let state = state_from_response_entry(&response.data[k]);
            self.set_state(&response.data[k].cwd, state);
            k += 1;
        }
    }

    /// The state a response loads for `cwd`.
    fn response_state(response: &SkillsListResponse, cwd: &String) -> (r: WorkspaceCatalogState)
        ensures
            r@ == response_state_for(response.data@, cwd@),
    {
        let n = response.data.len();
        let mut count: usize = 0;
        let mut first: usize = 0;
        let mut k: usize = 0;
        while k < n
            invariant
                0 <= k <= n,
                n == response.data@.len(),
                count == matches_of(response.data@, cwd@, k as int).len(),
                count <= k,
                count >= 1 ==> first == matches_of(response.data@, cwd@, k as int)[0] && first < n,
            decreases n - k,
        {
            if response.data[k].cwd == *cwd {
                if count == 0 {
                    first = k;
                }
                count += 1;
            }
            k += 1;
            proof {
                if count >= 1 {
                    let m = matches_of(response.data@, cwd@, k as int);
                    if response.data@[k - 1].cwd@ == cwd@ {
                        assert(m == matches_of(response.data@, cwd@, k - 1).push(k - 1));
                    }
                }
            }
        }
        if count == 1 {
            state_from_response_entry(&response.data[first])
        } else {
            WorkspaceCatalogState::Failed
        }
    }

    /// Applies a response to the refreshes `expected` if all of them are still current: each
    /// ticket's directory loads the state of its one listing entry (failed without exactly one).
    /// Returns whether the response was applied.
    pub fn sync_response_if_current(
        &mut self,
        response: &SkillsListResponse,
        expected: &Vec<WorkspaceSkillRefreshTicket>,
    ) -> (r: bool)
        requires
            old(self).wf(),
        ensures
            final(self).wf(),
            (final(self)@, r) == sync_if_current_spec(old(self)@, response.data@, expected@),
    {
        if expected.len() == 0 {
            return false;
        }
        if !self.all_current(expected) {
            return false;
        }
        let ghost before = self@;
        let n = expected.len();
        let mut k: usize = 0;
        while k < n
            invariant
                0 <= k <= n,
                n == expected@.len(),
                self.wf(),
                self@ == apply_tickets(before, response.data@, expected@, k as int),
                all_current(self@, expected@),
            decreases n - k,
        {
            let state = Self::response_state(response, &expected[k].cwd);
            let ghost prev = self@;
            self.set_state(&expected[k].cwd, state);
            proof {
                lemma_set_state_unique(prev, expected@[k as int].cwd@, state@);
                assert forall|j: int| 0 <= j < n implies is_current_spec(self@, #[trigger] expected@[j]) by {
                    lemma_currency_kept(prev, self@, expected@[j]);
                }
            }
            k += 1;
        }
        true
    }

    /// Marks the given directories' catalogs failed.
    pub fn mark_failed_for_cwds(&mut self, cwds: &Vec<String>)
        requires
            old(self).wf(),
        ensures
            final(self).wf(),
            final(self)@ == mark_failed_spec(old(self)@, cwds@, cwds@.len() as int),
    {
        let ghost before = self@;
        let n = cwds.len();
        let mut k: usize = 0;
        while k < n
            invariant
                0 <= k <= n,
                n == cwds@.len(),
                self.wf(),
                self@ == mark_failed_spec(before, cwds@, k as int),
            decreases n - k,
        {
            self.set_state(&cwds[k], WorkspaceCatalogState::Failed);
            k += 1;
        }
    }

    /// Marks the tickets' directories failed if all tickets are still current; returns whether
    /// it did.
    pub fn mark_failed_if_current(&mut self, tickets: &Vec<WorkspaceSkillRefreshTicket>) -> (r: bool)
        requires
            old(self).wf(),
        ensures
            final(self).wf(),
            (final(self)@, r) == mark_failed_if_current_spec(old(self)@, tickets@),
    {
        if tickets.len() == 0 {
            return false;
        }
        if !self.all_current(tickets) {
            return false;
        }
        let ghost before = self@;
        let ghost cwds = tickets@.map_values(|t: WorkspaceSkillRefreshTicket| t.cwd);
        let n = tickets.len();
        let mut k: usize = 0;
        while k < n
            invariant
                0 <= k <= n,
                n == tickets@.len(),
                cwds == tickets@.map_values(|t: WorkspaceSkillRefreshTicket| t.cwd),
                self.wf(),
                self@ == mark_failed_spec(before, cwds, k as int),
            decreases n - k,
        {
            assert(cwds[k as int] == tickets@[k as int].cwd);
            self.set_state(&tickets[k].cwd, WorkspaceCatalogState::Failed);
            k += 1;
        }
        true
    }

    /// Invalidates every directory's catalog: each advances its generation, so outstanding
    /// tickets stop being current, and goes back to unrequested. Returns the directories.
    pub fn invalidate_all(&mut self) -> (r: Vec<String>)
        requires
            old(self).wf(),
        ensures
            final(self).wf(),
            final(self)@ == invalidate_spec(old(self)@),
            r@.map_values(|s: String| s@) == old(self)@.map_values(|e: EntryModel| e.cwd),
    {
        let ghost before = self@;
        let n = self.entries.len();
        let mut cwds: Vec<String> = Vec::new();
        let mut entries: Vec<WorkspaceSkillCatalogEntry> = Vec::new();
        let mut k: usize = 0;
        while k < n
            invariant
                0 <= k <= n,
                n == self.entries@.len(),
                before == self@,
                entries_view(entries@) == invalidate_spec(before).take(k as int),
                cwds@.map_values(|s: String| s@) == before.map_values(|e: EntryModel| e.cwd).take(k as int),
            decreases n - k,
        {
            let entry = &self.entries[k];
            assert(before[k as int] == entry@);
            let ghost prev_entries = entries@;
            let ghost prev_cwds = cwds@;
            let cwd = entry.cwd.clone();
            cwds.push(cwd);
            let fresh = WorkspaceSkillCatalogEntry {
                cwd: entry.cwd.clone(),
                generation: entry.generation.saturating_add(1),
                state: WorkspaceCatalogState::Unrequested,
            };
            assert(fresh@ == invalidate_spec(before)[k as int]);
            entries.push(fresh);
            proof {
                assert(entries_view(entries@) =~= entries_view(prev_entries).push(fresh@));
                assert(invalidate_spec(before).take(k + 1) =~= invalidate_spec(before).take(k as int).push(
                    invalidate_spec(before)[k as int],
                ));
                assert(cwds@.map_values(|s: String| s@) =~= prev_cwds.map_values(|s: String| s@).push(entry.cwd@));
                assert(before.map_values(|e: EntryModel| e.cwd).take(k + 1) =~= before.map_values(
                    |e: EntryModel| e.cwd,
                ).take(k as int).push(before[k as int].cwd));
            }
            k += 1;
        }
        self.entries = entries;
        assert(self@ =~= invalidate_spec(before));
        assert(cwds@.map_values(|s: String| s@) =~= before.map_values(|e: EntryModel| e.cwd));
        proof {
            assert forall|a: int, b: int| 0 <= a < b < self@.len() implies #[trigger] self@[a].cwd
                != #[trigger] self@[b].cwd by {
                assert(self@[a].cwd == before[a].cwd && self@[b].cwd == before[b].cwd);
            }
        }
        cwds
    }

    /// The summary of a candidate read when its directory's catalog is loaded and lists its
    /// document: `<file> (<skill> skill)`.
    #[verifier::rlimit(30)]
    pub fn summary_for(&self, candidate: &WorkspaceSkillReadCandidate) -> (r: Option<WorkspaceReadSummary>)
        requires
            self.wf(),
        ensures
            match summary_spec(self@, *candidate) {
                Some(name) => r matches Some(s) && s.name@ == name,
                None => r is None,
            },
    {
        let i = match self.find_entry(&candidate.cwd) {
            Some(i) => i,
            None => return None,
        };
        assert(self@[i as int] == self.entries@[i as int]@);
        let roots = match &self.entries[i].state {
            WorkspaceCatalogState::Ready(roots) => roots,
            _ => return None,
        };
        let ghost rv = roots_view(roots@);
        assert(lookup(self@, candidate.cwd@) == Some(self@[i as int]));
        assert(self@[i as int].state == StateModel::Ready(rv));
        let n = roots.len();
        let mut j: usize = 0;
        while j < n
            invariant
                0 <= j <= n,
                n == roots@.len(),
                rv == roots_view(roots@),
                lookup(self@, candidate.cwd@) matches Some(e) && e.state == StateModel::Ready(rv),
                forall|k: int| 0 <= k < j ==> !is_root_for(#[trigger] rv[k], candidate.document@),
            decreases n - j,
        {
            assert(rv[j as int] == roots@[j as int]@);
            if roots[j].document == candidate.document {
                assert(is_root_for(rv[j as int], candidate.document@));
                assert(root_index(rv, candidate.document@) == Some(j as int));
                let mut name = candidate.filename.clone();
                name.append(" (");
                name.append(roots[j].name.as_str());
                name.append(" skill)");
                proof {
                    reveal_strlit(" (");
                    reveal_strlit(" skill)");
                    assert(name@ =~= summary_name(candidate.filename@, rv[j as int].name));
                }
                return Some(WorkspaceReadSummary { name });
            }
            j += 1;
        }
        None
    }

    /// Whether the candidate's document is listed with the fingerprint of its current contents.
    pub fn matches_current_document(
        &self,
        candidate: &WorkspaceSkillReadCandidate,
        contents: &Option<Vec<u8>>,
    ) -> (r: bool)
        requires
            self.wf(),
        ensures
            r == matches_document_spec(self@, *candidate, *contents),
    {
        let bytes = match contents {
            Some(bytes) => bytes,
            None => return false,
        };
        let fingerprint = sha256(bytes.as_slice());
        let i = match self.find_entry(&candidate.cwd) {
            Some(i) => i,
            None => return false,
        };
        assert(self@[i as int] == self.entries@[i as int]@);
        let roots = match &self.entries[i].state {
            WorkspaceCatalogState::Ready(roots) => roots,
            _ => return false,
        };
        let ghost rv = roots_view(roots@);
        assert(lookup(self@, candidate.cwd@) == Some(self@[i as int]));
        assert(self@[i as int].state == StateModel::Ready(rv));
        let n = roots.len();
        let mut j: usize = 0;
        while j < n
            invariant
                0 <= j <= n,
                n == roots@.len(),
                rv == roots_view(roots@),
                lookup(self@, candidate.cwd@) matches Some(e) && e.state == StateModel::Ready(rv),
                fingerprint@ == sha256_digest(bytes@),
                *contents == Some(*bytes),
                forall|k: int| 0 <= k < j ==> !root_matches(#[trigger] rv[k], candidate.document@, fingerprint@),
            decreases n - j,
        {
            assert(rv[j as int] == roots@[j as int]@);
            if roots[j].document == candidate.document && same_fingerprint(&roots[j].fingerprint, &fingerprint) {
                proof {
                    lemma_matching_root(self@, *candidate, *contents, rv, j as int);
                }
                return true;
            }
            j += 1;
        }
        false
    }
}

/// Whether two fingerprints are equal.
fn same_fingerprint(a: &[u8; 32], b: &[u8; 32]) -> (r: bool)
    ensures
        r == (a@ == b@),
{
    let mut i: usize = 0;
    while i < 32
        invariant
            0 <= i <= 32,
            a@.len() == 32,
            b@.len() == 32,
            forall|k: int| 0 <= k < i ==> a@[k] == b@[k],
        decreases 32 - i,
    {
        if a[i] != b[i] {
            return false;
        }
        i += 1;
    }
    assert(a@ =~= b@);
    true
}

/// A response to a refresh that was invalidated before it arrived changes nothing: the stale
/// ticket is no longer current, so the response is refused.
pub proof fn law_invalidation_rejects_stale_ticket(
    es: Seq<EntryModel>,
    ticket: WorkspaceSkillRefreshTicket,
    data: Seq<SkillsListEntry>,
)
    requires
        unique_cwds(es),
        is_current_spec(es, ticket),
        ticket.generation < u64::MAX,
    ensures
        sync_if_current_spec(invalidate_spec(es), data, seq![ticket]) == (invalidate_spec(es), false),
{
    let inv = invalidate_spec(es);
    let i = entry_index(es, ticket.cwd@).unwrap();
    assert(inv[i].cwd == ticket.cwd@);
    assert forall|a: int, b: int| 0 <= a < b < inv.len() implies #[trigger] inv[a].cwd != #[trigger] inv[b].cwd by {
        assert(es[a].cwd != es[b].cwd);
    }
    lemma_unique_index(inv, i);
    assert(!is_current_spec(inv, ticket));
    assert(seq![ticket][0] == ticket);
}

/// A refresh that begins hands out the directory's current ticket: right after it began, a
/// response to that ticket is accepted.
pub proof fn law_begun_refresh_is_current(es: Seq<EntryModel>, cwd: Seq<char>)
    requires
        unique_cwds(es),
    ensures
        begin_refresh_spec(es, cwd).1 ==> (lookup(begin_refresh_spec(es, cwd).0, cwd) matches Some(e) && e.state
            is Loading),
{
    let (r, began) = begin_refresh_spec(es, cwd);
    if began {
        match entry_index(es, cwd) {
            Some(i) => {
                assert forall|a: int, b: int| 0 <= a < b < r.len() implies #[trigger] r[a].cwd != #[trigger] r[b].cwd by {
                    assert(r[a].cwd == es[a].cwd && r[b].cwd == es[b].cwd);
                }
                lemma_unique_index(r, i);
            },
            None => {
                assert forall|a: int, b: int| 0 <= a < b < r.len() implies #[trigger] r[a].cwd != #[trigger] r[b].cwd by {
                    if b == es.len() {
                        assert(es[a].cwd != cwd);
                    } else {
                        assert(es[a].cwd != es[b].cwd);
                    }
                }
                lemma_unique_index(r, es.len() as int);
            },
        }
    }
}

/// A catalog load begins at most once: asking again for the same directory right after changes
/// nothing and begins nothing.
pub proof fn law_refresh_begins_once(es: Seq<EntryModel>, cwd: Seq<char>)
    requires
        unique_cwds(es),
    ensures
        ({
            let (once, _) = begin_refresh_spec(es, cwd);
            begin_refresh_spec(once, cwd) == (once, false)
        }),
{
    let (once, began) = begin_refresh_spec(es, cwd);
    if began {
        law_begun_refresh_is_current(es, cwd);
        assert(entry_index(once, cwd) is Some);
    } else {
        assert(once == es);
    }
}

/// The character is a line feed.
pub open spec fn is_newline(c: char) -> bool {
    c == '\n'
}

/// The position of the first line feed of `s`.
pub open spec fn newline_index_spec(s: Seq<char>) -> Option<int> {
    if exists|i: int| 0 <= i < s.len() && is_newline(#[trigger] s[i]) {
        Some(
            choose|i: int|
                0 <= i < s.len() && is_newline(#[trigger] s[i]) && forall|j: int|
                    0 <= j < i ==> !is_newline(#[trigger] s[j]),
        )
    } else {
        None
    }
}

/// The first line of `s` as `str::lines` yields it: up to the first line feed, without a
/// carriage return right before it; nothing for an empty string.
pub open spec fn first_line_spec(s: Seq<char>) -> Option<Seq<char>> {
    if s.len() == 0 {
        None
    } else {
        match newline_index_spec(s) {
            Some(k) => if k > 0 && s[k - 1] == '\r' {
                Some(s.subrange(0, k - 1))
            } else {
                Some(s.subrange(0, k))
            },
            None => Some(s),
        }
    }
}

/// The position of the first line feed of `text`.
pub fn newline_index(text: &str) -> (r: Option<usize>)
    ensures
        match r {
            Some(k) => newline_index_spec(text@) == Some(k as int) && k < text@.len(),
            None => newline_index_spec(text@) is None,
        },
{
    let n = text.unicode_len();
    let mut it = text.chars();
    let mut i: usize = 0;
    while i < n
        invariant
            0 <= i <= n,
            n == text@.len(),
            vstd::std_specs::iter::IteratorSpec::remaining(&it) == text@.skip(i as int),
            forall|j: int| 0 <= j < i ==> !is_newline(#[trigger] text@[j]),
        decreases n - i,
    {
        let next = it.next();
        match next {
            Some(c) => {
                assert(c == text@[i as int]);
                if c == '\n' {
                    assert(is_newline(text@[i as int]));
                    return Some(i);
                }
            },
            None => {
                return None;
            },
        }
        i += 1;
        assert(vstd::std_specs::iter::IteratorSpec::remaining(&it) =~= text@.skip(i as int));
    }
    None
}

/// The first line of `text`, as `str::lines` yields it.
pub fn first_line(text: &str) -> (r: Option<&str>)
    ensures
        match r {
            Some(line) => first_line_spec(text@) == Some(line@),
            None => first_line_spec(text@) is None,
        },
{
    let n = text.unicode_len();
    if n == 0 {
        return None;
    }
    match newline_index(text) {
        Some(k) => {
            if k > 0 && text.get_char(k - 1) == '\r' {
                Some(text.substring_char(0, k - 1))
            } else {
                Some(text.substring_char(0, k))
            }
        },
        None => Some(text),
    }
}

/// How a skill-document read is presented in the workspace.
#[derive(Clone, Debug)]
pub struct WorkspaceSkillReadPresentation {
    pub candidate: WorkspaceSkillReadCandidate,
    pub outcome: WorkspaceCommandOutcome,
}

/// The output starts with the working directory when the command printed it first.
pub open spec fn output_begins_with_pwd_spec(candidate: WorkspaceSkillReadCandidate, output: Option<String>) -> bool {
    pwd_output_ok(candidate.requires_pwd_output, candidate.cwd_path, output)
}

/// Where the working directory had to be printed first, the output's first line is it.
pub open spec fn pwd_output_ok(requires_pwd_output: bool, cwd_path: Option<String>, output: Option<String>) -> bool {
    if !requires_pwd_output {
        true
    } else {
        match (cwd_path, output) {
            (Some(cwd), Some(out)) => first_line_spec(out@) == Some(cwd@),
            _ => false,
        }
    }
}

impl WorkspaceSkillReadPresentation {
    /// A presentation of a candidate read whose command has not finished.
    pub fn new(candidate: WorkspaceSkillReadCandidate) -> (r: Self)
        ensures
            r.candidate == candidate,
            r.outcome == WorkspaceCommandOutcome::Pending,
    {
        WorkspaceSkillReadPresentation { candidate, outcome: WorkspaceCommandOutcome::Pending }
    }

    /// The compact summary, once the read succeeded and the catalog lists its document.
    pub fn summary(&self, catalog: &WorkspaceSkillCatalog) -> (r: Option<WorkspaceReadSummary>)
        requires
            catalog.wf(),
        ensures
            self.outcome != WorkspaceCommandOutcome::Succeeded ==> r is None,
            self.outcome == WorkspaceCommandOutcome::Succeeded ==> match summary_spec(catalog@, self.candidate) {
                Some(name) => r matches Some(s) && s.name@ == name,
                None => r is None,
            },
    {
        match self.outcome {
            WorkspaceCommandOutcome::Succeeded => catalog.summary_for(&self.candidate),
            _ => None,
        }
    }

    /// Whether the command's output begins with the working directory, when it had to print it.
    pub fn output_begins_with_pwd(&self, aggregated_output: &Option<String>) -> (r: bool)
        ensures
            r == output_begins_with_pwd_spec(self.candidate, *aggregated_output),
    {
        if !self.candidate.requires_pwd_output {
            return true;
        }
        let cwd = match &self.candidate.cwd_path {
            Some(cwd) => cwd,
            None => return false,
        };
        let output = match aggregated_output {
            Some(output) => output,
            None => return false,
        };
        match first_line(output.as_str()) {
            Some(line) => {
                let same = line.unicode_len() == cwd.as_str().unicode_len() && same_text(line, cwd.as_str());
                same
            },
            None => false,
        }
    }

    /// Records how the command ended: the read counts as succeeded only when the command
    /// succeeded, the catalog lists the document with the fingerprint of its current contents,
    /// and the output begins with the working directory where it had to.
    pub fn set_outcome(
        &mut self,
        catalog: &WorkspaceSkillCatalog,
        outcome: WorkspaceCommandOutcome,
        aggregated_output: &Option<String>,
        document_contents: &Option<Vec<u8>>,
    )
        requires
            catalog.wf(),
        ensures
            final(self).candidate == old(self).candidate,
            final(self).outcome == if outcome == WorkspaceCommandOutcome::Succeeded && matches_document_spec(
                catalog@,
                old(self).candidate,
                *document_contents,
            ) && output_begins_with_pwd_spec(old(self).candidate, *aggregated_output) {
                WorkspaceCommandOutcome::Succeeded
            } else {
                WorkspaceCommandOutcome::Failed
            },
    {
        let succeeded = match outcome {
            WorkspaceCommandOutcome::Succeeded => true,
            _ => false,
        };
        self.outcome = if succeeded && catalog.matches_current_document(&self.candidate, document_contents)
            && self.output_begins_with_pwd(aggregated_output) {
            WorkspaceCommandOutcome::Succeeded
        } else {
            WorkspaceCommandOutcome::Failed
        };
    }

    /// Begins loading the catalog of the read's working directory unless it was requested
    /// already; returns the directory when a load began.
    pub fn begin_catalog_refresh_if_needed(&self, catalog: &mut WorkspaceSkillCatalog) -> (r: Option<String>)
        requires
            old(catalog).wf(),
        ensures
            final(catalog).wf(),
            self.candidate.cwd_path is None ==> r is None && *final(catalog) == *old(catalog),
            self.candidate.cwd_path matches Some(p) ==> ({
                let (next, began) = begin_refresh_spec(old(catalog)@, self.candidate.cwd@);
                &&& final(catalog)@ == next
                &&& r == if began {
                    Some(p)
                } else {
                    None::<String>
                }
            }),
    {
        let cwd = match &self.candidate.cwd_path {
            Some(cwd) => cwd,
            None => return None,
        };
        if catalog.begin_refresh_if_unrequested(&self.candidate.cwd) {
            Some(cwd.clone())
        } else {
            None
        }
    }
}

/// Whether two strings of the same length have the same characters.
fn same_text(a: &str, b: &str) -> (r: bool)
    requires
        a@.len() == b@.len(),
    ensures
        r == (a@ == b@),
{
    let n = a.unicode_len();
    let mut i: usize = 0;
    while i < n
        invariant
            0 <= i <= n,
            n == a@.len(),
            a@.len() == b@.len(),
            forall|k: int| 0 <= k < i ==> a@[k] == b@[k],
        decreases n - i,
    {
        if a.get_char(i) != b.get_char(i) {
            return false;
        }
        i += 1;
    }
    assert(a@ =~= b@);
    true
}

/// The path argument of a command that only reads a whole file: `cat PATH` or
/// `sed -n 1,240p PATH`.
pub open spec fn compactable_read_path_spec(command: Seq<String>) -> Option<String> {
    if command.len() == 2 && command[0]@ == "cat"@ {
        Some(command[1])
    } else if command.len() == 4 && command[0]@ == "sed"@ && command[1]@ == "-n"@ && command[2]@ == "1,240p"@ {
        Some(command[3])
    } else {
        None
    }
}

/// The path argument of a command that only reads a whole file.
pub fn compactable_read_path(command: &Vec<String>) -> (r: Option<&String>)
    ensures
        match r {
            Some(p) => compactable_read_path_spec(command@) == Some(*p),
            None => compactable_read_path_spec(command@) is None,
        },
{
    let cat = String::from_str("cat");
    let sed = String::from_str("sed");
    let flag = String::from_str("-n");
    let range = String::from_str("1,240p");
    if command.len() == 2 && command[0] == cat {
        return Some(&command[1]);
    }
    if command.len() == 4 && command[0] == sed && command[1] == flag && command[2] == range {
        return Some(&command[3]);
    }
    None
}

/// Whether a command is a plain whole-file read of `document`; `resolved` is its path argument
/// joined to the working directory (nothing when it does not resolve).
pub fn is_compactable_skill_read_argv(command: &Vec<String>, resolved: &Option<String>, document: &String) -> (r:
    bool)
    ensures
        r == (compactable_read_path_spec(command@) is Some && (*resolved matches Some(p) && p@ == document@)),
{
    if compactable_read_path(command).is_none() {
        return false;
    }
    match resolved {
        Some(p) => *p == *document,
        None => false,
    }
}

/// Where a command execution came from.
#[derive(Clone, Copy, Debug, PartialEq, Eq, Structural)]
pub enum CommandExecutionSource {
    Agent,
    UnifiedExecStartup,
    UserShell,
    Other,
}

/// What a command touches inside installed skills, as the skill access scanner reports it.
#[derive(Clone, Debug)]
pub enum SkillAccess {
    /// A skill document, by path URI.
    Document(String),
    /// A skill script.
    Script,
}

/// A parsed command, as far as classification reads it: a read carries its path joined to the
/// working directory (nothing when the path does not join).
#[derive(Clone, Debug)]
pub enum ParsedCommand {
    Read { resolved: Option<String> },
    Other,
}

/// A `bash -lc` command made of two plain commands joined by `&&`: their words, the parse of the
/// right one, and the right one's read path joined to the working directory.
#[derive(Clone, Debug)]
pub struct ShellCommandPair {
    pub left: Vec<String>,
    pub right: Vec<String>,
    pub right_parsed: Vec<ParsedCommand>,
    pub right_resolved: Option<String>,
}

/// The documents among the first `k` accesses.
pub open spec fn documents_of(accesses: Seq<SkillAccess>, k: int) -> Seq<String>
    decreases k,
{
    if k <= 0 {
        Seq::empty()
    } else {
        match accesses[k - 1] {
            SkillAccess::Document(d) => documents_of(accesses, k - 1).push(d),
            SkillAccess::Script => documents_of(accesses, k - 1),
        }
    }
}

pub open spec fn has_script(accesses: Seq<SkillAccess>) -> bool {
    exists|i: int| 0 <= i < accesses.len() && #[trigger] accesses[i] is Script
}

/// The parse is one read of `document`.
pub open spec fn parsed_read_matches(parsed: Seq<ParsedCommand>, document: Seq<char>) -> bool {
    parsed.len() == 1 && (parsed[0] matches ParsedCommand::Read { resolved } && (resolved matches Some(p) && p@
        == document))
}

pub open spec fn is_compactable_spec(command: Seq<String>, resolved: Option<String>, document: Seq<char>) -> bool {
    compactable_read_path_spec(command) is Some && (resolved matches Some(p) && p@ == document)
}

/// The command reads the document as `pwd && <read>` in a shell.
pub open spec fn shell_read_spec(shell: Option<ShellCommandPair>, document: Seq<char>) -> bool {
    match shell {
        Some(pair) => pair.left@.len() == 1 && pair.left@[0]@ == "pwd"@ && parsed_read_matches(
            pair.right_parsed@,
            document,
        ) && is_compactable_spec(pair.right@, pair.right_resolved, document),
        None => false,
    }
}

/// The candidate a command is, when it reads exactly one skill document and nothing else of
/// the skills, directly or after `pwd`, and comes from the agent.
pub open spec fn classify_spec(
    source: CommandExecutionSource,
    command: Seq<String>,
    command_resolved: Option<String>,
    cwd: String,
    cwd_path: Option<String>,
    accesses: Seq<SkillAccess>,
    parsed: Seq<ParsedCommand>,
    shell: Option<ShellCommandPair>,
    document_basename: Option<String>,
) -> Option<(Seq<char>, Seq<char>, bool)> {
    let docs = documents_of(accesses, accesses.len() as int);
    if !(source == CommandExecutionSource::Agent || source == CommandExecutionSource::UnifiedExecStartup) {
        None
    } else if docs.len() != 1 || has_script(accesses) {
        None
    } else {
        let document = docs[0]@;
        let direct = parsed_read_matches(parsed, document) && is_compactable_spec(command, command_resolved, document);
        let shell_read = shell_read_spec(shell, document);
        if !direct && !shell_read {
            None
        } else {
            match document_basename {
                Some(name) => Some((document, name@, shell_read)),
                None => None,
            }
        }
    }
}

fn parsed_read_matches_exec(parsed: &Vec<ParsedCommand>, document: &String) -> (r: bool)
    ensures
        r == parsed_read_matches(parsed@, document@),
{
    if parsed.len() != 1 {
        return false;
    }
    match &parsed[0] {
        ParsedCommand::Read { resolved } => match resolved {
            Some(p) => *p == *document,
            None => false,
        },
        ParsedCommand::Other => false,
    }
}

/// Classifies a command as a compactable read of one skill document. The skill accesses, the
/// parse of the command, the shell split and the joined paths are what the command parsers
/// report for it; `document_basename` is the file name of the one document accessed.
pub fn classify_workspace_skill_read(
    source: CommandExecutionSource,
    command: &Vec<String>,
    command_resolved: &Option<String>,
    cwd: String,
    cwd_path: Option<String>,
    accesses: &Vec<SkillAccess>,
    parsed: &Vec<ParsedCommand>,
    shell: &Option<ShellCommandPair>,
    document_basename: Option<String>,
) -> (r: Option<WorkspaceSkillReadPresentation>)
    ensures
        match classify_spec(
            source,
            command@,
            *command_resolved,
            cwd,
            cwd_path,
            accesses@,
            parsed@,
            *shell,
            document_basename,
        ) {
            None => r is None,
            Some((document, filename, requires_pwd)) => r matches Some(p) && p.outcome
                == WorkspaceCommandOutcome::Pending && p.candidate.document@ == document && p.candidate.filename@
                == filename && p.candidate.cwd == cwd && p.candidate.cwd_path == cwd_path
                && p.candidate.requires_pwd_output == requires_pwd,
        },
{
    match source {
        CommandExecutionSource::Agent | CommandExecutionSource::UnifiedExecStartup => {},
        _ => return None,
    }
    let mut document: Option<&String> = None;
    let mut documents: usize = 0;
    let mut script = false;
    let n = accesses.len();
    let mut k: usize = 0;
    while k < n
        invariant
            0 <= k <= n,
            n == accesses@.len(),
            documents == documents_of(accesses@, k as int).len(),
            documents <= k,
            documents >= 1 ==> (document matches Some(d) && *d == documents_of(accesses@, k as int)[0]),
            script == exists|i: int| 0 <= i < k && #[trigger] accesses@[i] is Script,
        decreases n - k,
    {
        match &accesses[k] {
            SkillAccess::Document(d) => {
                if documents == 0 {
                    document = Some(d);
                }
                documents += 1;
            },
            SkillAccess::Script => {
                script = true;
            },
        }
        proof {
            let before = documents_of(accesses@, k as int);
            match accesses@[k as int] {
                SkillAccess::Document(d) => {
                    assert(documents_of(accesses@, k + 1) == before.push(d));
                    if before.len() >= 1 {
                        assert(before.push(d)[0] == before[0]);
                    }
                },
                SkillAccess::Script => {},
            }
            if exists|i: int| 0 <= i < k + 1 && #[trigger] accesses@[i] is Script {
                let i = choose|i: int| 0 <= i < k + 1 && #[trigger] accesses@[i] is Script;
                if i < k {
                    assert(exists|i2: int| 0 <= i2 < k && #[trigger] accesses@[i2] is Script);
                }
            }
            if accesses@[k as int] is Script {
                assert(0 <= k < k + 1 && accesses@[k as int] is Script);
            }
        }
        k += 1;
    }
    if documents != 1 || script {
        return None;
    }
    let document = match document {
        Some(d) => d,
        None => return None,
    };
    let direct = parsed_read_matches_exec(parsed, document) && is_compactable_skill_read_argv(
        command,
        command_resolved,
        document,
    );
    let shell_read = match shell {
        Some(pair) => pair.left.len() == 1 && pair.left[0] == String::from_str("pwd") && parsed_read_matches_exec(
            &pair.right_parsed,
            document,
        ) && is_compactable_skill_read_argv(&pair.right, &pair.right_resolved, document),
        None => false,
    };
    proof {
        reveal_strlit("pwd");
    }
    if !direct && !shell_read {
        return None;
    }
    let filename = match document_basename {
        Some(name) => name,
        None => return None,
    };
    Some(
        WorkspaceSkillReadPresentation {
            candidate: WorkspaceSkillReadCandidate {
                document: document.clone(),
                filename,
                cwd,
                cwd_path,
                requires_pwd_output: shell_read,
            },
            outcome: WorkspaceCommandOutcome::Pending,
        },
    )
}

} // verus!
