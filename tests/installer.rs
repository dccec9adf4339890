use rattler_installer::error::InstallerError;
use rattler_installer::installer::{AppleCodeSignBehavior, Installer, LinkOptions};
use rattler_installer::metadata::{linked_record, metadata_file_name};
use rattler_installer::plan::{install_order, remaining};
use rattler_installer::reporter::{after_unlink, after_write, before_fetch, before_unlink, Report};
use rattler_installer::record::{InstalledRecord, LinkType, PackageRecord};
use rattler_installer::session::{Action, Event, InstallSession, Phase};
use rattler_installer::transaction::{Operation, Transaction, TransactionError};

fn pkg(name: &str, version: &str, size: Option<u64>) -> PackageRecord {
    PackageRecord::new(
        name.to_string(),
        version.to_string(),
        "h0".to_string(),
        size,
        format!("{name}-{version}-h0.conda"),
        format!("https://example.org/{name}-{version}-h0.conda"),
    )
}

fn installed(record: PackageRecord, files: &[&str]) -> InstalledRecord {
    linked_record(&record, files.iter().map(|f| f.to_string()).collect(), "/cache/x".to_string())
}

fn install_op(record: PackageRecord) -> Operation {
    Operation { remove: None, install: Some(record) }
}

/// Runs a session to its end, performing each action at once, and returns the
/// records that it asked to write, with their file names.
fn drive(session: &mut InstallSession, first: Vec<Action>, files: &[(&str, Vec<&str>)]) -> Vec<(String, InstalledRecord)> {
    let mut queue: Vec<Action> = first;
    let mut written = Vec::new();
    let mut finished = false;
    while let Some(action) = if queue.is_empty() { None } else { Some(queue.remove(0)) } {
        let event = match action {
            Action::Unlink(i, _) => Event::Unlinked(i),
            Action::Fetch(i) => Event::Fetched(i, format!("/cache/{i}")),
            Action::RemoveEmptyDirectories => Event::CleanupDone,
            Action::Link(i, _) => {
                let name = session.transaction.operations[i].install.as_ref().unwrap().name.clone();
                let paths = files
                    .iter()
                    .find(|(n, _)| *n == name)
                    .map(|(_, p)| p.iter().map(|s| s.to_string()).collect())
                    .unwrap_or_default();
                Event::Linked(i, paths)
            }
            Action::WriteRecord(i, name, record) => {
                written.push((name, record));
                Event::RecordWritten(i)
            }
            Action::PostProcess => Event::PostProcessed,
            Action::Finish => {
                finished = true;
                continue;
            }
            Action::Fail(e) => panic!("unexpected failure {e:?}"),
        };
        queue.extend(session.step(event));
    }
    assert!(finished);
    written
}

#[test]
fn empty_transaction_finishes_at_once() {
    let installer = Installer::new();
    let prepared = installer.prepare(&Vec::new(), &Vec::new()).ok().unwrap();
    assert_eq!(prepared.transaction_size, 0);
    assert_eq!(prepared.session.phase, Phase::Done);
    assert_eq!(prepared.actions.len(), 1);
    assert!(matches!(prepared.actions[0], Action::Finish));
    let result = prepared.session.into_result(None, None, Vec::new());
    assert!(result.pre_link_script_result.is_none());
    assert!(result.post_link_script_result.is_none());
    assert!(result.clobbered_paths.is_empty());
}

#[test]
fn empty_transaction_keeps_a_reporting_installer_silent() {
    let current = vec![installed(pkg("a", "1.0", Some(10)), &["lib/a.so"])];
    let desired = vec![pkg("a", "1.0", Some(10))];
    let installer = Installer::new().with_execute_link_scripts(true);
    let prepared = installer.prepare(&current, &desired).ok().unwrap();
    assert_eq!(prepared.transaction_size, 0);
    assert_eq!(prepared.actions.len(), 1);
    assert!(matches!(prepared.actions[0], Action::Finish));
    assert_eq!(prepared.remaining.len(), 1);
}

#[test]
fn two_fresh_packages_install_larger_first() {
    let desired = vec![pkg("a", "1.0", Some(50_000_000)), pkg("b", "2.0", Some(5_000_000))];
    let installer = Installer::new();
    let prepared = installer.prepare(&Vec::new(), &desired).ok().unwrap();
    let mut session = prepared.session;
    assert_eq!(prepared.transaction_size, 2);
    for op in &session.transaction.operations {
        assert!(op.remove.is_none());
        assert!(op.install.is_some());
    }
    assert_eq!(session.order, vec![0, 1]);
    assert_eq!(session.phase, Phase::Cleaning);
    assert!(matches!(prepared.actions[0], Action::RemoveEmptyDirectories));
    assert!(matches!(prepared.actions[1], Action::Fetch(0)));
    assert!(matches!(prepared.actions[2], Action::Fetch(1)));
    let files = [("a", vec!["bin/a"]), ("b", vec!["bin/b", "lib/b.so"])];
    let written = drive(&mut session, prepared.actions, &files);
    assert_eq!(session.phase, Phase::Done);
    let mut names: Vec<String> = written.iter().map(|(n, _)| n.clone()).collect();
    names.sort();
    assert_eq!(names, vec!["a-1.0-h0.json".to_string(), "b-2.0-h0.json".to_string()]);
    let b = written.iter().find(|(n, _)| n == "b-2.0-h0.json").unwrap();
    assert_eq!(b.1.files, vec!["bin/b".to_string(), "lib/b.so".to_string()]);
    assert_eq!(b.1.link_type, Some(LinkType::HardLink));
    let result = session.into_result(None, None, Vec::new());
    assert!(result.clobbered_paths.is_empty());
    assert_eq!(result.transaction.operations.len(), 2);
}

#[test]
fn second_install_of_the_same_set_is_empty() {
    let desired = vec![pkg("a", "1.0", Some(50_000_000)), pkg("b", "2.0", Some(5_000_000))];
    let installer = Installer::new();
    let prepared = installer.prepare(&Vec::new(), &desired).ok().unwrap();
    let mut session = prepared.session;
    let files = [("a", vec!["bin/a"]), ("b", vec!["bin/b"])];
    let written = drive(&mut session, prepared.actions, &files);
    let now: Vec<InstalledRecord> = written.into_iter().map(|(_, r)| r).collect();
    let again = Installer::new().prepare(&now, &desired).ok().unwrap();
    assert_eq!(again.transaction_size, 0);
    assert_eq!(again.session.phase, Phase::Done);
}

#[test]
fn upgrade_replaces_the_installed_record() {
    let current = vec![installed(pkg("a", "1.0", Some(10)), &["bin/a"])];
    let desired = vec![pkg("a", "2.0", Some(12))];
    let prepared = Installer::new().prepare(&current, &desired).ok().unwrap();
    assert_eq!(prepared.transaction_size, 1);
    let mut session = prepared.session;
    let op = &session.transaction.operations[0];
    assert_eq!(op.remove.as_ref().unwrap().record.version, "1.0");
    assert_eq!(op.install.as_ref().unwrap().version, "2.0");
    assert_eq!(session.phase, Phase::Removing);
    assert!(matches!(&prepared.actions[0], Action::Unlink(0, n) if n == "a-1.0-h0.json"));
    assert!(matches!(prepared.actions[1], Action::Fetch(0)));
    assert!(prepared.remaining.is_empty());
    let written = drive(&mut session, prepared.actions, &[("a", vec!["bin/a"])]);
    assert_eq!(written.len(), 1);
    assert_eq!(written[0].0, "a-2.0-h0.json");
    assert_eq!(written[0].1.record.version, "2.0");
}

#[test]
fn removal_only_operation() {
    let current = vec![
        installed(pkg("a", "1.0", Some(10)), &["bin/a"]),
        installed(pkg("b", "1.0", Some(10)), &["bin/b"]),
    ];
    let desired = vec![pkg("b", "1.0", Some(10))];
    let prepared = Installer::new().prepare(&current, &desired).ok().unwrap();
    assert_eq!(prepared.transaction_size, 1);
    assert_eq!(prepared.remaining.len(), 1);
    assert_eq!(prepared.remaining[0].record.name, "b");
    let mut session = prepared.session;
    assert_eq!(prepared.actions.len(), 1);
    assert!(matches!(&prepared.actions[0], Action::Unlink(0, n) if n == "a-1.0-h0.json"));
    let written = drive(&mut session, prepared.actions, &[]);
    assert!(written.is_empty());
    assert!(session.unlinked[0]);
    assert_eq!(session.phase, Phase::Done);
}

#[test]
fn failure_ends_the_installation() {
    let desired = vec![pkg("a", "1.0", Some(10)), pkg("b", "1.0", Some(20))];
    let prepared = Installer::new().prepare(&Vec::new(), &desired).ok().unwrap();
    let mut session = prepared.session;
    assert!(session.step(Event::CleanupDone).is_empty());
    let acts = session.step(Event::Fetched(1, "/cache/b".to_string()));
    assert!(matches!(&acts[0], Action::Link(1, d) if d == "/cache/b"));
    let acts = session.step(Event::Linked(1, vec!["bin/b".to_string()]));
    assert!(matches!(&acts[0], Action::WriteRecord(1, n, _) if n == "b-1.0-h0.json"));
    assert!(session.step(Event::RecordWritten(1)).is_empty());
    let acts = session.step(Event::Failed(InstallerError::FailedToFetch("a-1.0-h0.conda".to_string())));
    assert_eq!(acts.len(), 1);
    assert!(matches!(&acts[0], Action::Fail(InstallerError::FailedToFetch(f)) if f == "a-1.0-h0.conda"));
    assert_eq!(session.phase, Phase::Failed);
    assert!(session.written[1]);
    assert!(session.step(Event::Fetched(0, "/cache/a".to_string())).is_empty());
    assert!(session.step(Event::PostProcessed).is_empty());
    assert_eq!(session.phase, Phase::Failed);
}

#[test]
fn unlink_failure_ends_the_installation() {
    let current = vec![installed(pkg("a", "1.0", Some(10)), &["bin/a"])];
    let prepared = Installer::new().prepare(&current, &Vec::new()).ok().unwrap();
    let mut session = prepared.session;
    let acts = session.step(Event::Failed(InstallerError::UnlinkError("a-1.0-h0.conda".to_string())));
    assert!(matches!(&acts[0], Action::Fail(InstallerError::UnlinkError(_))));
    assert_eq!(session.phase, Phase::Failed);
}

#[test]
fn events_out_of_turn_change_nothing() {
    let desired = vec![pkg("a", "1.0", Some(10))];
    let prepared = Installer::new().prepare(&Vec::new(), &desired).ok().unwrap();
    let mut session = prepared.session;
    assert!(session.step(Event::Linked(0, Vec::new())).is_empty());
    assert!(session.step(Event::RecordWritten(0)).is_empty());
    assert!(session.step(Event::Unlinked(0)).is_empty());
    assert!(session.step(Event::PostProcessed).is_empty());
    assert!(session.step(Event::Fetched(7, "/x".to_string())).is_empty());
    assert_eq!(session.phase, Phase::Cleaning);
    assert!(!session.linked[0]);
}

#[test]
fn dispatch_order_by_size_descending() {
    let t = Transaction {
        operations: vec![
            install_op(pkg("a", "1", Some(5))),
            install_op(pkg("b", "1", Some(50))),
            Operation { remove: Some(installed(pkg("c", "1", Some(900)), &[])), install: None },
            install_op(pkg("d", "1", Some(20))),
            install_op(pkg("e", "1", None)),
            install_op(pkg("f", "1", Some(20))),
        ],
    };
    assert_eq!(install_order(&t), vec![1, 5, 3, 0, 4]);
}

#[test]
fn duplicate_installed_names_are_refused() {
    let current = vec![
        installed(pkg("a", "1.0", None), &[]),
        installed(pkg("a", "2.0", None), &[]),
    ];
    let r = Transaction::from_current_and_desired(&current, &Vec::new(), &Vec::new());
    assert!(matches!(r, Err(TransactionError::DuplicateInstalled)));
    let p = Installer::new().prepare(&current, &Vec::new());
    assert!(matches!(p, Err(InstallerError::FailedToComputeTransaction(TransactionError::DuplicateInstalled))));
}

#[test]
fn duplicate_desired_names_are_refused() {
    let desired = vec![pkg("a", "1.0", None), pkg("a", "2.0", None)];
    let r = Transaction::from_current_and_desired(&Vec::new(), &desired, &Vec::new());
    assert!(matches!(r, Err(TransactionError::DuplicateDesired)));
}

#[test]
fn reinstall_replaces_an_unchanged_package() {
    let current = vec![installed(pkg("a", "1.0", Some(3)), &["bin/a"])];
    let desired = vec![pkg("a", "1.0", Some(3))];
    let t = Transaction::from_current_and_desired(&current, &desired, &vec!["a".to_string()]).ok().unwrap();
    assert_eq!(t.operations.len(), 1);
    assert!(t.operations[0].remove.is_some());
    assert!(t.operations[0].install.is_some());
    let installer = Installer::new().with_reinstall_packages(vec!["a".to_string()]);
    assert_eq!(installer.prepare(&current, &desired).ok().unwrap().transaction_size, 1);
}

#[test]
fn removals_come_before_installs() {
    let current = vec![installed(pkg("old", "1.0", None), &[])];
    let desired = vec![pkg("new", "1.0", None)];
    let t = Transaction::from_current_and_desired(&current, &desired, &Vec::new()).ok().unwrap();
    assert_eq!(t.operations.len(), 2);
    assert_eq!(t.operations[0].remove.as_ref().unwrap().record.name, "old");
    assert!(t.operations[0].install.is_none());
    assert_eq!(t.operations[1].install.as_ref().unwrap().name, "new");
    let left = remaining(&current, &t);
    assert!(left.is_empty());
}

#[test]
fn metadata_file_name_joins_name_version_and_build() {
    let r = PackageRecord::new(
        "python".to_string(),
        "3.12.1".to_string(),
        "h2628c8c_0".to_string(),
        None,
        "python-3.12.1-h2628c8c_0.conda".to_string(),
        String::new(),
    );
    assert_eq!(metadata_file_name(&r), "python-3.12.1-h2628c8c_0.json");
}

#[test]
fn builder_settings() {
    let installer = Installer::new()
        .with_io_concurrency_limit(4)
        .with_execute_link_scripts(true)
        .with_package_cache("/cache".to_string())
        .with_target_platform("linux-64".to_string())
        .with_apple_code_signing_behavior(AppleCodeSignBehavior::Fail)
        .with_link_options(LinkOptions { allow_symbolic_links: Some(false), allow_hard_links: None, allow_ref_links: Some(true) });
    assert_eq!(installer.effective_io_concurrency_limit(), 4);
    assert!(installer.execute_link_scripts);
    assert_eq!(installer.package_cache.as_deref(), Some("/cache"));
    assert_eq!(installer.target_platform.as_deref(), Some("linux-64"));
    let options = installer.base_install_options("linux-64".to_string());
    assert_eq!(options.apple_codesign_behavior, AppleCodeSignBehavior::Fail);
    assert_eq!(options.link_options.allow_symbolic_links, Some(false));
    assert!(options.target_prefix.is_none());

    let mut other = Installer::new();
    assert_eq!(other.effective_io_concurrency_limit(), 100);
    other.set_io_concurrency_semaphore(8).set_execute_link_scripts(true).set_installed_packages(Vec::new());
    assert_eq!(other.effective_io_concurrency_limit(), 8);
    assert!(other.execute_link_scripts);
    assert!(other.installed.as_ref().unwrap().is_empty());
    other.set_io_concurrency_limit(2).set_reinstall_packages(vec!["x".to_string()]);
    other.set_package_cache("/c".to_string()).set_target_platform("osx-arm64".to_string());
    other.set_apple_code_signing_behavior(AppleCodeSignBehavior::Ignore).set_link_options(LinkOptions::new());
    assert_eq!(other.effective_io_concurrency_limit(), 2);
    assert_eq!(other.apple_code_sign_behavior, AppleCodeSignBehavior::Ignore);
    let again = Installer::new().with_installed_packages(Vec::new());
    assert!(again.installed.is_some());
}

#[test]
fn reports_bracket_each_operation_once() {
    let upgrade = Operation {
        remove: Some(installed(pkg("a", "1.0", None), &[])),
        install: Some(pkg("a", "2.0", None)),
    };
    assert_eq!(before_unlink(3), vec![Report::OperationStart(3), Report::UnlinkStart(3)]);
    assert_eq!(after_unlink(&upgrade, 3), vec![Report::UnlinkComplete(3)]);
    assert_eq!(before_fetch(&upgrade, 3), vec![Report::PopulateCacheStart(3)]);
    assert_eq!(after_write(3), vec![Report::LinkComplete(3), Report::OperationComplete(3)]);
    let removal = Operation { remove: Some(installed(pkg("b", "1.0", None), &[])), install: None };
    assert_eq!(after_unlink(&removal, 1), vec![Report::UnlinkComplete(1), Report::OperationComplete(1)]);
    let fresh = install_op(pkg("c", "1.0", None));
    assert_eq!(before_fetch(&fresh, 0), vec![Report::OperationStart(0), Report::PopulateCacheStart(0)]);
}

#[test]
fn defaults_match_new() {
    let installer = Installer::default().with_io_concurrency_semaphore(3);
    assert_eq!(installer.effective_io_concurrency_limit(), 3);
    assert!(!installer.execute_link_scripts);
    assert_eq!(installer.apple_code_sign_behavior, AppleCodeSignBehavior::DoNothing);
    assert_eq!(LinkOptions::default(), LinkOptions::new());
}
