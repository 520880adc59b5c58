use transcript_workspace::skill_catalog::{
    classify_workspace_skill_read, CommandExecutionSource, ParsedCommand, ShellCommandPair, SkillAccess,
    completion_outcome, first_line, is_compactable_skill_read_argv, CommandExecutionStatus, SkillMetadata,
    SkillsListEntry, SkillsListResponse, WorkspaceCommandOutcome, WorkspaceSkillCatalog,
    WorkspaceSkillReadCandidate, WorkspaceSkillReadPresentation,
};

fn skill_metadata(name: &str, path: &str, contents: Option<&[u8]>) -> SkillMetadata {
    SkillMetadata {
        name: name.to_string(),
        path: path.to_string(),
        enabled: true,
        contents: contents.map(|bytes| bytes.to_vec()),
    }
}

fn response(cwd: &str, skills: Vec<SkillMetadata>) -> SkillsListResponse {
    SkillsListResponse { data: vec![SkillsListEntry { cwd: cwd.to_string(), skills, has_errors: false }] }
}

fn candidate(document: &str, cwd: &str, requires_pwd_output: bool) -> WorkspaceSkillReadCandidate {
    WorkspaceSkillReadCandidate {
        document: document.to_string(),
        filename: "SKILL.md".to_string(),
        cwd: cwd.to_string(),
        cwd_path: Some(cwd.to_string()),
        requires_pwd_output,
    }
}

#[test]
fn catalog_invalidation_rejects_a_response_from_its_previous_ticket() {
    let cwd = "/tmp/workspace-skill-catalog".to_string();
    let skill_path = "/tmp/catalog-skill/SKILL.md";
    let mut catalog = WorkspaceSkillCatalog::new();

    assert!(catalog.begin_refresh_if_unrequested(&cwd));
    let stale_ticket = catalog.current_ticket(&cwd).expect("refresh ticket");
    catalog.invalidate_all();

    let applied = catalog.sync_response_if_current(
        &response(&cwd, vec![skill_metadata("stale", skill_path, Some(b"stale catalog response"))]),
        &vec![stale_ticket],
    );

    assert!(!applied);
    assert!(catalog.summary_for(&candidate(skill_path, &cwd, false)).is_none());
}

#[test]
fn completed_read_of_a_skill_path_replaced_by_a_symlink_stays_full() {
    let cwd = "/tmp/workspace-symlink";
    let skill_path = "/tmp/workspace-symlink/SKILL.md";
    let mut catalog = WorkspaceSkillCatalog::new();
    catalog.sync_response(&response(cwd, vec![skill_metadata("demo", skill_path, Some(b"trusted skill body"))]));

    // The document became a symlink, which is not read: it has no current contents.
    let mut presentation = WorkspaceSkillReadPresentation::new(candidate(skill_path, cwd, false));
    presentation.set_outcome(&catalog, WorkspaceCommandOutcome::Succeeded, &None, &None);

    assert!(presentation.summary(&catalog).is_none());
    assert_eq!(presentation.outcome, WorkspaceCommandOutcome::Failed);
}

#[test]
fn shell_candidate_with_output_before_pwd_stays_full() {
    let cwd = "/tmp/workspace-skill-shell-output";
    let skill_path = "/tmp/enabled-skill/SKILL.md";
    let mut catalog = WorkspaceSkillCatalog::new();
    catalog.sync_response(&response(cwd, vec![skill_metadata("demo", skill_path, Some(b"skill body"))]));
    let mut presentation = WorkspaceSkillReadPresentation::new(candidate(skill_path, cwd, true));

    presentation.set_outcome(
        &catalog,
        WorkspaceCommandOutcome::Succeeded,
        &Some("zsh startup output\n/tmp/workspace-skill-shell-output\nskill body\n".to_string()),
        &Some(b"skill body".to_vec()),
    );

    assert!(presentation.summary(&catalog).is_none());
}

#[test]
fn confirmed_skill_read_is_summarized() {
    let cwd = "/tmp/workspace-skill-confirmed";
    let skill_path = "/tmp/enabled-skill/SKILL.md";
    let mut catalog = WorkspaceSkillCatalog::new();
    catalog.sync_response(&response(cwd, vec![skill_metadata("demo", skill_path, Some(b"skill body"))]));
    let mut presentation = WorkspaceSkillReadPresentation::new(candidate(skill_path, cwd, true));

    presentation.set_outcome(
        &catalog,
        WorkspaceCommandOutcome::Succeeded,
        &Some("/tmp/workspace-skill-confirmed\r\nskill body\n".to_string()),
        &Some(b"skill body".to_vec()),
    );

    assert_eq!(presentation.summary(&catalog).expect("summary").name, "SKILL.md (demo skill)");
}

#[test]
fn changed_skill_document_stays_full() {
    let cwd = "/tmp/workspace-skill-changed";
    let skill_path = "/tmp/enabled-skill/SKILL.md";
    let mut catalog = WorkspaceSkillCatalog::new();
    catalog.sync_response(&response(cwd, vec![skill_metadata("demo", skill_path, Some(b"skill body"))]));
    let mut presentation = WorkspaceSkillReadPresentation::new(candidate(skill_path, cwd, false));

    presentation.set_outcome(&catalog, WorkspaceCommandOutcome::Succeeded, &None, &Some(b"edited body".to_vec()));

    assert_eq!(presentation.outcome, WorkspaceCommandOutcome::Failed);
}

#[test]
fn current_ticket_response_loads_the_catalog_once() {
    let cwd = "/tmp/workspace-skill-current".to_string();
    let skill_path = "/tmp/enabled-skill/SKILL.md";
    let mut catalog = WorkspaceSkillCatalog::new();

    assert!(catalog.begin_refresh_if_unrequested(&cwd));
    assert!(!catalog.begin_refresh_if_unrequested(&cwd));
    let ticket = catalog.current_ticket(&cwd).expect("refresh ticket");
    assert_eq!(ticket.generation, 1);
    assert!(ticket.is_for_cwd(&cwd));

    assert!(catalog.sync_response_if_current(
        &response(&cwd, vec![skill_metadata("demo", skill_path, Some(b"skill body"))]),
        &vec![ticket.clone()],
    ));
    assert_eq!(
        catalog.summary_for(&candidate(skill_path, &cwd, false)).expect("summary").name,
        "SKILL.md (demo skill)"
    );
    assert!(!catalog.sync_response_if_current(&response(&cwd, Vec::new()), &Vec::new()));

    assert!(catalog.mark_failed_if_current(&vec![ticket]));
    assert!(catalog.summary_for(&candidate(skill_path, &cwd, false)).is_none());
}

#[test]
fn response_without_the_ticket_directory_fails_it() {
    let cwd = "/tmp/workspace-skill-missing".to_string();
    let mut catalog = WorkspaceSkillCatalog::new();
    assert!(catalog.begin_refresh_if_unrequested(&cwd));
    let ticket = catalog.current_ticket(&cwd).expect("refresh ticket");

    assert!(catalog.sync_response_if_current(&response("/tmp/other", Vec::new()), &vec![ticket]));

    assert!(catalog.summary_for(&candidate("/tmp/x/SKILL.md", &cwd, false)).is_none());
    let cwds = catalog.invalidate_all();
    assert_eq!(cwds, vec![cwd.clone()]);
    assert!(catalog.begin_refresh_if_unrequested(&cwd));
    assert_eq!(catalog.current_ticket(&cwd).expect("ticket").generation, 3);
}

#[test]
fn disabled_skills_and_failed_listings_are_not_compacted() {
    let cwd = "/tmp/workspace-skill-disabled";
    let skill_path = "/tmp/disabled-skill/SKILL.md";
    let mut catalog = WorkspaceSkillCatalog::new();
    let mut disabled = skill_metadata("demo", skill_path, Some(b"body"));
    disabled.enabled = false;
    catalog.sync_response(&response(cwd, vec![disabled]));
    assert!(catalog.summary_for(&candidate(skill_path, cwd, false)).is_none());

    let mut failed = response(cwd, vec![skill_metadata("demo", skill_path, Some(b"body"))]);
    failed.data[0].has_errors = true;
    catalog.sync_response(&failed);
    assert!(catalog.summary_for(&candidate(skill_path, cwd, false)).is_none());

    catalog.mark_failed_for_cwds(&vec![cwd.to_string()]);
    assert!(catalog.summary_for(&candidate(skill_path, cwd, false)).is_none());
}

#[test]
fn completion_succeeds_only_with_exit_code_zero() {
    assert_eq!(completion_outcome(CommandExecutionStatus::Completed, Some(0)), WorkspaceCommandOutcome::Succeeded);
    assert_eq!(completion_outcome(CommandExecutionStatus::Completed, Some(1)), WorkspaceCommandOutcome::Failed);
    assert_eq!(completion_outcome(CommandExecutionStatus::Completed, None), WorkspaceCommandOutcome::Failed);
    assert_eq!(completion_outcome(CommandExecutionStatus::Failed, Some(0)), WorkspaceCommandOutcome::Failed);
}

#[test]
fn only_plain_whole_file_reads_are_compactable() {
    let document = "/tmp/demo/SKILL.md".to_string();
    let resolved = Some(document.clone());
    let argv = |words: &[&str]| words.iter().map(|w| w.to_string()).collect::<Vec<_>>();

    assert!(is_compactable_skill_read_argv(&argv(&["cat", "SKILL.md"]), &resolved, &document));
    assert!(is_compactable_skill_read_argv(&argv(&["sed", "-n", "1,240p", "SKILL.md"]), &resolved, &document));
    assert!(!is_compactable_skill_read_argv(&argv(&["sed", "-n", "1,10p", "SKILL.md"]), &resolved, &document));
    assert!(!is_compactable_skill_read_argv(&argv(&["head", "SKILL.md"]), &resolved, &document));
    assert!(!is_compactable_skill_read_argv(&argv(&["cat", "OTHER.md"]), &Some("/tmp/demo/OTHER.md".to_string()), &document));
    assert!(!is_compactable_skill_read_argv(&argv(&["cat", "SKILL.md"]), &None, &document));
}

#[test]
fn first_line_follows_str_lines() {
    assert_eq!(first_line("abc\r\ndef"), Some("abc"));
    assert_eq!(first_line("abc\ndef"), Some("abc"));
    assert_eq!(first_line("abc\r"), Some("abc\r"));
    assert_eq!(first_line("\nrest"), Some(""));
    assert_eq!(first_line(""), None);
    assert_eq!(first_line("only"), Some("only"));
}

fn words(items: &[&str]) -> Vec<String> {
    items.iter().map(|w| w.to_string()).collect()
}

fn classify(
    source: CommandExecutionSource,
    command: &[&str],
    accesses: Vec<SkillAccess>,
    parsed: Vec<ParsedCommand>,
    shell: Option<ShellCommandPair>,
) -> Option<WorkspaceSkillReadPresentation> {
    let document = "/tmp/demo/SKILL.md".to_string();
    classify_workspace_skill_read(
        source,
        &words(command),
        &Some(document.clone()),
        "/tmp/demo".to_string(),
        Some("/tmp/demo".to_string()),
        &accesses,
        &parsed,
        &shell,
        Some("SKILL.md".to_string()),
    )
}

fn read_of_document() -> ParsedCommand {
    ParsedCommand::Read { resolved: Some("/tmp/demo/SKILL.md".to_string()) }
}

#[test]
fn direct_read_of_one_skill_document_is_a_candidate() {
    let doc = SkillAccess::Document("/tmp/demo/SKILL.md".to_string());
    let found = classify(CommandExecutionSource::Agent, &["cat", "SKILL.md"], vec![doc.clone()], vec![read_of_document()], None)
        .expect("candidate");
    assert_eq!(found.outcome, WorkspaceCommandOutcome::Pending);
    assert_eq!(found.candidate.document, "/tmp/demo/SKILL.md");
    assert_eq!(found.candidate.filename, "SKILL.md");
    assert_eq!(found.candidate.cwd, "/tmp/demo");
    assert!(!found.candidate.requires_pwd_output);

    assert!(classify(CommandExecutionSource::UserShell, &["cat", "SKILL.md"], vec![doc.clone()], vec![read_of_document()], None)
        .is_none());
    assert!(classify(
        CommandExecutionSource::Agent,
        &["cat", "SKILL.md"],
        vec![doc.clone(), SkillAccess::Script],
        vec![read_of_document()],
        None
    )
    .is_none());
    assert!(classify(CommandExecutionSource::Agent, &["cat", "SKILL.md"], vec![doc.clone(), doc.clone()], vec![read_of_document()], None)
        .is_none());
    assert!(classify(CommandExecutionSource::Agent, &["head", "SKILL.md"], vec![doc], vec![read_of_document()], None).is_none());
}

#[test]
fn pwd_then_read_in_a_shell_requires_the_pwd_output() {
    let doc = SkillAccess::Document("/tmp/demo/SKILL.md".to_string());
    let pair = ShellCommandPair {
        left: words(&["pwd"]),
        right: words(&["sed", "-n", "1,240p", "SKILL.md"]),
        right_parsed: vec![read_of_document()],
        right_resolved: Some("/tmp/demo/SKILL.md".to_string()),
    };
    let found = classify(
        CommandExecutionSource::UnifiedExecStartup,
        &["bash", "-lc", "pwd && sed -n 1,240p SKILL.md"],
        vec![doc.clone()],
        vec![ParsedCommand::Other],
        Some(pair.clone()),
    )
    .expect("candidate");
    assert!(found.candidate.requires_pwd_output);

    let mut not_pwd = pair;
    not_pwd.left = words(&["ls"]);
    assert!(classify(
        CommandExecutionSource::Agent,
        &["bash", "-lc", "ls && sed -n 1,240p SKILL.md"],
        vec![doc],
        vec![ParsedCommand::Other],
        Some(not_pwd)
    )
    .is_none());
}
