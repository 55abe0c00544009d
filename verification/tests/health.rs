use greenboot::{
    check_previous_rollback, generate_motd_message, health_check, trigger_rollback, Answer,
    Candidate, DiagnosticsError, Effect, FileMeta, GreenbootConfig, HealthCheckError,
    JournalError, JournalOutput, Listing, Observations, Record, Request, RollbackError,
    ScriptOutcome, Step,
};

/// A pretended system: the files that fail, the answers of the collaborators,
/// and everything that was asked of it.
struct System {
    files: Vec<(&'static str, &'static str, bool)>,
    required_dirs: Vec<&'static str>,
    journal: JournalOutput,
    failing_effects: Vec<usize>,
    asked: Vec<Request>,
}

impl System {
    fn new(files: Vec<(&'static str, &'static str, bool)>) -> System {
        System {
            files,
            required_dirs: vec!["/usr/lib/greenboot/check/required.d/", "/etc/greenboot/check/required.d/"],
            journal: JournalOutput::Text(String::new()),
            failing_effects: Vec::new(),
            asked: Vec::new(),
        }
    }

    fn answer(&mut self, request: Request, record: &mut Record) {
        let answer = match &request {
            Request::QueryJournal => Answer::Journal(self.journal.clone()),
            Request::ProbeDir(path) => Answer::Probe(self.required_dirs.iter().any(|d| d == path)),
            Request::ListDir(pattern) => {
                let dir = pattern.strip_suffix('*').unwrap();
                let entries = self
                    .files
                    .iter()
                    .filter(|(d, _, _)| *d == dir)
                    .map(|(d, name, _)| Candidate {
                        path: format!("{d}{name}"),
                        file_name: Some(name.to_string()),
                        meta: Some(FileMeta { is_file: true, mode: 0o755 }),
                    })
                    .collect();
                Answer::Listing(Listing::Entries(entries))
            }
            Request::Execute(entry) => {
                let fails = self
                    .files
                    .iter()
                    .find(|(d, name, _)| format!("{d}{name}") == entry.path)
                    .map(|(_, _, fails)| *fails)
                    .unwrap();
                Answer::Outcome(if fails {
                    ScriptOutcome::Failed { status: Some(1), stdout: String::new(), stderr: String::new() }
                } else {
                    ScriptOutcome::Success
                })
            }
            _ => {
                let at = record.effects.len();
                Answer::Effect(if self.failing_effects.contains(&at) {
                    Effect::Failed(format!("effect {at} failed"))
                } else {
                    Effect::Done
                })
            }
        };
        record.record(answer);
        self.asked.push(request);
    }

    fn run(&mut self, config: GreenbootConfig, disabled: &[String]) -> Result<Vec<String>, HealthCheckError> {
        let mut record = Record::new();
        for _ in 0..1000 {
            match health_check(&config, disabled, &record) {
                Step::Need(request) => self.answer(request, &mut record),
                Step::Done(result) => return result,
            }
        }
        panic!("the health check did not end");
    }

    /// What was asked of the collaborators, in order.
    fn effects(&self) -> Vec<Request> {
        self.asked
            .iter()
            .filter(|r| {
                !matches!(
                    r,
                    Request::ProbeDir(_) | Request::ListDir(_) | Request::Execute(_) | Request::QueryJournal
                )
            })
            .cloned()
            .collect()
    }

    fn executed(&self) -> Vec<String> {
        self.asked
            .iter()
            .filter_map(|r| match r {
                Request::Execute(entry) => Some(entry.path.clone()),
                _ => None,
            })
            .collect()
    }
}

fn passing_files() -> Vec<(&'static str, &'static str, bool)> {
    vec![
        ("/usr/lib/greenboot/check/required.d/", "00_required.sh", false),
        ("/etc/greenboot/check/wanted.d/", "00_wanted.sh", true),
        ("/usr/lib/greenboot/green.d/", "00_green.sh", true),
        ("/etc/greenboot/green.d/", "01_green.sh", false),
        ("/etc/greenboot/red.d/", "00_red.sh", false),
    ]
}

fn failing_files() -> Vec<(&'static str, &'static str, bool)> {
    vec![
        ("/usr/lib/greenboot/check/required.d/", "00_required.sh", true),
        ("/usr/lib/greenboot/check/required.d/", "01_required.sh", true),
        ("/etc/greenboot/check/wanted.d/", "00_wanted.sh", false),
        ("/etc/greenboot/green.d/", "01_green.sh", false),
        ("/usr/lib/greenboot/red.d/", "00_red.sh", true),
        ("/etc/greenboot/red.d/", "01_red.sh", false),
    ]
}

const BANNER: &str = "FALLBACK BOOT DETECTED! Default bootc deployment has been rolled back.\n";

#[test]
fn a_passing_health_check_goes_the_green_way() {
    let mut system = System::new(passing_files());
    let result = system.run(GreenbootConfig::set_default(), &["absent.sh".to_string()]);
    assert_eq!(result, Ok(vec!["absent.sh".to_string()]));
    assert!(matches!(system.asked[0], Request::QueryJournal));
    assert_eq!(
        system.effects(),
        vec![
            Request::PublishMotd("Greenboot healthcheck is in progress".to_string()),
            Request::PublishMotd("Greenboot healthcheck passed - status is GREEN".to_string()),
            Request::PersistBootStatus(true),
        ]
    );
    assert_eq!(
        system.executed(),
        vec![
            "/usr/lib/greenboot/check/required.d/00_required.sh".to_string(),
            "/etc/greenboot/check/wanted.d/00_wanted.sh".to_string(),
            "/usr/lib/greenboot/green.d/00_green.sh".to_string(),
            "/etc/greenboot/green.d/01_green.sh".to_string(),
        ]
    );
}

#[test]
fn the_green_hooks_run_before_the_good_news() {
    let mut system = System::new(passing_files());
    system.run(GreenbootConfig::set_default(), &[]).unwrap();
    let last_hook = system
        .asked
        .iter()
        .rposition(|r| matches!(r, Request::Execute(_)))
        .unwrap();
    let news = system
        .asked
        .iter()
        .position(|r| matches!(r, Request::PublishMotd(m) if m.contains("GREEN")))
        .unwrap();
    assert!(last_hook < news);
}

#[test]
fn a_failing_health_check_goes_the_red_way() {
    let mut system = System::new(failing_files());
    let result = system.run(GreenbootConfig { max_reboot: 5 }, &[]);
    let error = result.unwrap_err();
    assert_eq!(error.message(), "greenboot healthcheck failed");
    match &error {
        HealthCheckError::Failed(DiagnosticsError::RequiredFailed(errors)) => assert_eq!(errors.len(), 1),
        other => panic!("{other:?}"),
    }
    assert_eq!(
        system.effects(),
        vec![
            Request::PublishMotd("Greenboot healthcheck is in progress".to_string()),
            Request::PublishMotd("Greenboot healthcheck failed - status is RED".to_string()),
            Request::PersistBootStatus(false),
            Request::PersistBootCounter(5),
            Request::Reboot { immediate: false },
        ]
    );
    assert_eq!(
        system.executed(),
        vec![
            "/usr/lib/greenboot/check/required.d/00_required.sh".to_string(),
            "/usr/lib/greenboot/red.d/00_red.sh".to_string(),
            "/etc/greenboot/red.d/01_red.sh".to_string(),
        ]
    );
}

#[test]
fn the_bad_news_comes_before_the_red_hooks() {
    let mut system = System::new(failing_files());
    system.run(GreenbootConfig::set_default(), &[]).unwrap_err();
    let news = system
        .asked
        .iter()
        .position(|r| matches!(r, Request::PublishMotd(m) if m.contains("RED")))
        .unwrap();
    let first_hook = system
        .asked
        .iter()
        .position(|r| matches!(r, Request::Execute(e) if e.path.contains("/red.d/")))
        .unwrap();
    assert!(news < first_hook);
}

#[test]
fn remediation_goes_on_whatever_fails() {
    let mut calm = System::new(failing_files());
    let calm_result = calm.run(GreenbootConfig::set_default(), &[]);
    let mut stormy = System::new(failing_files());
    stormy.failing_effects = vec![1, 2, 3, 4];
    let stormy_result = stormy.run(GreenbootConfig::set_default(), &[]);
    assert_eq!(calm.asked, stormy.asked);
    assert_eq!(calm_result, stormy_result);
    assert_eq!(stormy.effects().len(), 5);
    assert_eq!(stormy.effects()[3], Request::PersistBootCounter(3));
}

#[test]
fn the_health_check_ends_if_it_cannot_say_that_it_runs() {
    let mut system = System::new(passing_files());
    system.failing_effects = vec![0];
    assert_eq!(
        system.run(GreenbootConfig::set_default(), &[]),
        Err(HealthCheckError::Motd("effect 0 failed".to_string()))
    );
    assert_eq!(system.asked.len(), 2);
    assert_eq!(HealthCheckError::Motd("effect 0 failed".to_string()).message(), "effect 0 failed");
}

#[test]
fn good_news_that_cannot_be_published_changes_nothing() {
    let mut system = System::new(passing_files());
    system.failing_effects = vec![1];
    assert_eq!(system.run(GreenbootConfig::set_default(), &[]), Ok(vec![]));
    assert_eq!(system.effects().last(), Some(&Request::PersistBootStatus(true)));
}

#[test]
fn success_that_cannot_be_persisted_fails_the_health_check() {
    let mut system = System::new(passing_files());
    system.failing_effects = vec![2];
    let error = system.run(GreenbootConfig::set_default(), &[]).unwrap_err();
    assert_eq!(error, HealthCheckError::BootStatus("effect 2 failed".to_string()));
    assert_eq!(error.message(), "effect 2 failed");
    assert!(!system.asked.iter().any(|r| matches!(r, Request::Reboot { .. })));
}

#[test]
fn hooks_that_fail_change_no_outcome() {
    let mut files = passing_files();
    for f in files.iter_mut() {
        if f.0.ends_with("green.d/") {
            f.2 = true;
        }
    }
    let mut system = System::new(files);
    assert_eq!(system.run(GreenbootConfig::set_default(), &[]), Ok(vec![]));
    assert_eq!(system.executed().iter().filter(|p| p.contains("green.d")).count(), 2);
}

#[test]
fn a_system_without_required_directories_goes_the_red_way() {
    let mut system = System::new(passing_files());
    system.required_dirs.clear();
    assert_eq!(
        system.run(GreenbootConfig::set_default(), &[]),
        Err(HealthCheckError::Failed(DiagnosticsError::NoRequiredFolder))
    );
    assert_eq!(system.executed(), vec!["/etc/greenboot/red.d/00_red.sh".to_string()]);
    assert_eq!(system.effects().len(), 5);
}

#[test]
fn after_a_rollback_the_banner_stands_before_every_message() {
    let mut system = System::new(passing_files());
    system.journal = JournalOutput::Text("Oct 01 greenboot[1]: Rollback successful\n".to_string());
    system.run(GreenbootConfig::set_default(), &[]).unwrap();
    assert_eq!(
        system.effects()[..2],
        [
            Request::PublishMotd(format!("{BANNER}Greenboot healthcheck is in progress")),
            Request::PublishMotd(format!("{BANNER}Greenboot healthcheck passed - status is GREEN")),
        ]
    );
    let mut system = System::new(failing_files());
    system.journal = JournalOutput::Text("Rollback successful".to_string());
    system.run(GreenbootConfig::set_default(), &[]).unwrap_err();
    assert_eq!(
        system.effects()[1],
        Request::PublishMotd(format!("{BANNER}Greenboot healthcheck failed - status is RED"))
    );
}

#[test]
fn a_journal_that_gives_no_answer_shows_no_rollback() {
    for journal in [
        JournalOutput::Unavailable("No such file or directory (os error 2)".to_string()),
        JournalOutput::Failed,
        JournalOutput::NotText,
        JournalOutput::Text("-- No entries --\n".to_string()),
    ] {
        let mut system = System::new(passing_files());
        system.journal = journal;
        system.run(GreenbootConfig::set_default(), &[]).unwrap();
        assert_eq!(
            system.effects()[0],
            Request::PublishMotd("Greenboot healthcheck is in progress".to_string())
        );
    }
}

#[test]
fn a_skip_list_reaches_the_diagnostics() {
    let mut system = System::new(failing_files());
    let skip = vec!["00_required.sh".to_string(), "01_required.sh".to_string()];
    assert_eq!(system.run(GreenbootConfig::set_default(), &skip), Ok(vec![]));
    assert!(!system.executed().iter().any(|p| p.contains("required.d")));
}

#[test]
fn two_passes_on_an_unchanged_system_are_the_same() {
    let mut first = System::new(passing_files());
    let mut second = System::new(passing_files());
    let a = first.run(GreenbootConfig::set_default(), &[]);
    let b = second.run(GreenbootConfig::set_default(), &[]);
    assert_eq!(a, b);
    assert_eq!(first.asked, second.asked);
    assert!(a.is_ok());
}

#[test]
fn rollback_restores_clears_and_reboots() {
    assert_eq!(trigger_rollback(&[]), Step::Need(Request::InvokeRollback));
    assert_eq!(trigger_rollback(&[Effect::Done]), Step::Need(Request::ClearBootCounter));
    assert_eq!(
        trigger_rollback(&[Effect::Done, Effect::Done]),
        Step::Need(Request::Reboot { immediate: true })
    );
    assert_eq!(trigger_rollback(&[Effect::Done, Effect::Done, Effect::Done]), Step::Done(Ok(())));
}

#[test]
fn a_rollback_that_fails_touches_nothing_else() {
    let failed = Effect::Failed("bootc rollback exited with 1".to_string());
    let expected = Step::Done(Err(RollbackError::NotInitiated("bootc rollback exited with 1".to_string())));
    assert_eq!(trigger_rollback(&[failed.clone()]), expected);
    assert_eq!(trigger_rollback(&[failed.clone(), Effect::Done, Effect::Done]), expected);
    assert_eq!(
        RollbackError::NotInitiated("bootc rollback exited with 1".to_string()).message(),
        "bootc rollback exited with 1, Rollback is not initiated"
    );
}

#[test]
fn a_counter_that_cannot_be_cleared_stops_the_rollback() {
    let step = trigger_rollback(&[Effect::Done, Effect::Failed("grubenv is read-only".to_string())]);
    assert_eq!(step, Step::Done(Err(RollbackError::BootCounter("grubenv is read-only".to_string()))));
    assert_eq!(RollbackError::BootCounter("grubenv is read-only".to_string()).message(), "grubenv is read-only");
}

#[test]
fn a_reboot_that_fails_fails_the_rollback() {
    let step = trigger_rollback(&[Effect::Done, Effect::Done, Effect::Failed("no systemctl".to_string())]);
    assert_eq!(step, Step::Done(Err(RollbackError::Reboot("no systemctl".to_string()))));
    assert_eq!(RollbackError::Reboot("no systemctl".to_string()).message(), "no systemctl");
}

#[test]
fn the_default_is_three_attempts() {
    assert_eq!(GreenbootConfig::set_default(), GreenbootConfig { max_reboot: 3 });
    assert_eq!(GreenbootConfig::get_config(None), GreenbootConfig { max_reboot: 3 });
}

#[test]
fn a_configured_number_of_attempts_is_taken() {
    assert_eq!(GreenbootConfig::get_config(Some(5)).max_reboot, 5);
    assert_eq!(GreenbootConfig::get_config(Some(0)).max_reboot, 0);
    assert_eq!(GreenbootConfig::get_config(Some(65535)).max_reboot, 65535);
}

#[test]
fn a_number_of_attempts_out_of_range_falls_back_to_the_default() {
    assert_eq!(GreenbootConfig::get_config(Some(-1)).max_reboot, 3);
    assert_eq!(GreenbootConfig::get_config(Some(65536)).max_reboot, 3);
    assert_eq!(GreenbootConfig::get_config(Some(i64::MAX)).max_reboot, 3);
    assert_eq!(GreenbootConfig::get_config(Some(i64::MIN)).max_reboot, 3);
}

#[test]
fn the_journal_shows_a_rollback_by_its_marker() {
    let text = |s: &str| JournalOutput::Text(s.to_string());
    assert_eq!(check_previous_rollback(&text("Rollback successful")), Ok(true));
    assert_eq!(check_previous_rollback(&text("a\nb Rollback successful c\n")), Ok(true));
    assert_eq!(check_previous_rollback(&text("rollback successful")), Ok(false));
    assert_eq!(check_previous_rollback(&text("Rollback  successful")), Ok(false));
    assert_eq!(check_previous_rollback(&text("Rollback failed")), Ok(false));
    assert_eq!(check_previous_rollback(&text("")), Ok(false));
    assert_eq!(check_previous_rollback(&text(" \n\t")), Ok(false));
    assert_eq!(check_previous_rollback(&JournalOutput::Failed), Ok(false));
}

#[test]
fn a_journal_that_cannot_be_read_is_an_error() {
    assert_eq!(
        check_previous_rollback(&JournalOutput::Unavailable("not found".to_string())),
        Err(JournalError::Unavailable("not found".to_string()))
    );
    assert_eq!(check_previous_rollback(&JournalOutput::NotText), Err(JournalError::NotText));
    assert_eq!(
        JournalError::Unavailable("not found".to_string()).message(),
        "Failed to execute journalctl command to check rollback status"
    );
    assert_eq!(JournalError::NotText.message(), "Failed to parse journalctl output as UTF-8");
}

#[test]
fn the_message_of_the_day_is_the_base_with_or_without_banner() {
    assert_eq!(generate_motd_message("Greenboot healthcheck is in progress", false), "Greenboot healthcheck is in progress");
    assert_eq!(
        generate_motd_message("Greenboot healthcheck is in progress", true),
        "FALLBACK BOOT DETECTED! Default bootc deployment has been rolled back.\nGreenboot healthcheck is in progress"
    );
    assert_eq!(generate_motd_message("", false), "");
    assert_eq!(generate_motd_message("", true), BANNER);
}

#[test]
fn diagnostics_errors_have_their_messages() {
    assert_eq!(DiagnosticsError::NoRequiredFolder.message(), "cannot find any required.d folder");
    assert_eq!(
        DiagnosticsError::RequiredFailed(vec![]).message(),
        "required health-check failed, skipping remaining scripts"
    );
    assert_eq!(
        HealthCheckError::Failed(DiagnosticsError::NoRequiredFolder).message(),
        "greenboot healthcheck failed"
    );
}

#[test]
fn answers_go_to_the_end_of_their_lists() {
    let mut record = Record::new();
    assert_eq!(
        record,
        Record {
            journal: None,
            effects: vec![],
            checks: Observations { probes: vec![], listings: vec![], outcomes: vec![] },
        }
    );
    record.record(Answer::Probe(true));
    record.record(Answer::Effect(Effect::Done));
    record.record(Answer::Probe(false));
    record.record(Answer::Outcome(ScriptOutcome::Success));
    record.record(Answer::Journal(JournalOutput::Failed));
    record.record(Answer::Listing(Listing::Failed("x".to_string())));
    record.record(Answer::Effect(Effect::Failed("y".to_string())));
    record.record(Answer::Outcome(ScriptOutcome::NotStarted("z".to_string())));
    record.record(Answer::Listing(Listing::Entries(vec![])));
    assert_eq!(
        record,
        Record {
            journal: Some(JournalOutput::Failed),
            effects: vec![Effect::Done, Effect::Failed("y".to_string())],
            checks: Observations {
                probes: vec![true, false],
                listings: vec![Listing::Failed("x".to_string()), Listing::Entries(vec![])],
                outcomes: vec![ScriptOutcome::Success, ScriptOutcome::NotStarted("z".to_string())],
            },
        }
    );
}

#[test]
fn the_first_answer_of_the_journal_stays() {
    let mut record = Record::new();
    record.record(Answer::Journal(JournalOutput::NotText));
    record.record(Answer::Journal(JournalOutput::Text("Rollback successful".to_string())));
    assert_eq!(record.journal, Some(JournalOutput::NotText));
}

#[test]
fn observations_take_only_what_is_theirs() {
    let mut seen = Observations::new();
    seen.record(Answer::Effect(Effect::Done));
    seen.record(Answer::Journal(JournalOutput::Failed));
    assert_eq!(seen, Observations::new());
    seen.record(Answer::Probe(true));
    seen.record(Answer::Outcome(ScriptOutcome::Success));
    seen.record(Answer::Listing(Listing::Entries(vec![])));
    assert_eq!(
        seen,
        Observations {
            probes: vec![true],
            listings: vec![Listing::Entries(vec![])],
            outcomes: vec![ScriptOutcome::Success],
        }
    );
}
