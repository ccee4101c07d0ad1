#![allow(dead_code)]

use std::cell::RefCell;

use elvpath_lib::execution::{
    append_observed_line, command_preview, decide_step_action, escape_powershell_single_quoted,
    execute_install_step_with_runner, execute_install_step_with_runner_and_observer,
    powershell_prelude, privilege_check_needed, process_result, rollback_config_change,
    windows_language_installer_script, HandedLines, LineObserver, ProcessOutput, ProcessRunner, ProcessRuns, StepAction,
};
use elvpath_lib::models::{
    default_dry_run, Catalog, CatalogCategory, CatalogItem, ConfigAction, ConfigChangeTemplate,
    DetectionKind, DetectionRule, ExecutionRequest, ExecutionStatus, InstallStepKind,
    InstallStepTemplate, LocalizedText, NetworkMode, NetworkProfile, OperatingSystem,
    PlanSelection, PlannedStep, Source, SourceKind, StepPermissions, VersionOption,
};
use elvpath_lib::planner::build_install_plan;

fn text(en: &str) -> LocalizedText {
    LocalizedText { en: en.to_string(), zh: format!("zh: {en}") }
}

fn all_platforms() -> Vec<OperatingSystem> {
    vec![OperatingSystem::Windows, OperatingSystem::Macos, OperatingSystem::Linux]
}

fn step(
    id: &str,
    platforms: Vec<OperatingSystem>,
    command: Option<&str>,
    args: &[&str],
    url: Option<&str>,
    mirror_url: Option<&str>,
    requires_admin: bool,
) -> InstallStepTemplate {
    InstallStepTemplate {
        id: id.to_string(),
        platforms,
        kind: if url.is_some() { InstallStepKind::Download } else { InstallStepKind::Command },
        title: text(&format!("Install {id}")),
        url: url.map(|u| u.to_string()),
        mirror_url: mirror_url.map(|u| u.to_string()),
        checksum: None,
        command: command.map(|c| c.to_string()),
        args: args.iter().map(|a| a.to_string()).collect(),
        source: SourceKind::Official,
        permissions: StepPermissions {
            requires_admin,
            reason: if requires_admin { Some(text("needs admin")) } else { None },
        },
    }
}

fn probe(program: &str, args: &[&str], platforms: Vec<OperatingSystem>) -> DetectionRule {
    DetectionRule {
        platforms,
        kind: DetectionKind::PathCommand,
        program: program.to_string(),
        args: args.iter().map(|a| a.to_string()).collect(),
        source_hint: None,
    }
}

fn tool(
    id: &str,
    category: &str,
    dependencies: &[&str],
    install_steps: Vec<InstallStepTemplate>,
    detection: Vec<DetectionRule>,
) -> CatalogItem {
    CatalogItem {
        id: id.to_string(),
        category: category.to_string(),
        name: text(id),
        summary: text(&format!("{id} summary")),
        homepage: format!("https://example.org/{id}"),
        supported_platforms: all_platforms(),
        tags: vec![category.to_string()],
        versions: vec![
            VersionOption { id: "stable".to_string(), label: "Stable".to_string(), is_default: true },
            VersionOption { id: "latest".to_string(), label: "Latest".to_string(), is_default: false },
        ],
        sources: vec![Source {
            kind: SourceKind::Official,
            url: format!("https://example.org/{id}/download"),
            notes: None,
        }],
        detection,
        dependencies: dependencies.iter().map(|d| d.to_string()).collect(),
        install_steps,
        config_steps: vec![ConfigChangeTemplate {
            target: "PATH".to_string(),
            action: ConfigAction::Append,
            value: format!("/opt/{id}/bin"),
            backup_hint: text("PATH is backed up first"),
            rollback: text(&format!("Remove /opt/{id}/bin from PATH")),
        }],
    }
}

fn language(id: &str, program: &str) -> CatalogItem {
    tool(
        id,
        "languages",
        &[],
        vec![
            step("windows-installer", vec![OperatingSystem::Windows], Some(program), &["--install"], Some(&format!("https://example.org/{id}/setup.exe")), None, false),
            step("unix-package", vec![OperatingSystem::Macos, OperatingSystem::Linux], Some(program), &["install", id], None, None, false),
        ],
        vec![probe(program, &["--version"], all_platforms())],
    )
}

fn seed_catalog() -> Catalog {
    let categories = ["languages", "containers", "editors", "devops", "databases"]
        .iter()
        .map(|id| CatalogCategory {
            id: id.to_string(),
            name: text(id),
            description: text(&format!("{id} tools")),
            icon: format!("{id}.svg"),
        })
        .collect();
    let mut items = vec![
        language("rust", "rustc"),
        tool(
            "nodejs",
            "languages",
            &[],
            vec![
                step("windows-installer", vec![OperatingSystem::Windows], Some("msiexec"), &["/i", "node.msi"], Some("https://nodejs.org/dist/latest/node.msi"), Some("https://npmmirror.com/mirrors/node/latest/node.msi"), false),
                step("linux-archive", vec![OperatingSystem::Linux], Some("tar"), &["-xf", "node.tar.xz"], Some("https://nodejs.org/dist/latest/node.tar.xz"), Some("https://npmmirror.com/mirrors/node/latest/node.tar.xz"), false),
            ],
            vec![probe("node", &["--version"], all_platforms())],
        ),
        language("python", "python3"),
        tool(
            "git",
            "devops",
            &[],
            vec![step("git-setup", all_platforms(), Some("git-installer"), &["/silent"], Some("https://git-scm.com/download"), None, false)],
            vec![probe("git", &["--version"], all_platforms())],
        ),
        tool(
            "docker",
            "containers",
            &["git"],
            vec![step("docker-desktop", all_platforms(), Some("docker-installer"), &["install", "--quiet"], Some("https://docs.docker.com/get-docker"), None, true)],
            vec![probe("docker", &["--version"], all_platforms())],
        ),
        tool(
            "vscode",
            "editors",
            &[],
            vec![step("vscode-setup", all_platforms(), Some("code-installer"), &[], Some("https://code.visualstudio.com/download"), None, false)],
            vec![probe("code", &["--version"], all_platforms())],
        ),
        language("java", "java"),
        language("go", "go"),
        language("dotnet", "dotnet"),
        language("php", "php"),
        language("ruby", "ruby"),
    ];
    items[0].detection[0].platforms = all_platforms();
    Catalog { schema_version: 1, categories, items }
}

#[derive(Default)]
struct FakeRunner {
    calls: RefCell<Vec<(String, Vec<String>)>>,
    fail: bool,
}

impl ProcessRunner for FakeRunner {
    fn run(&self, program: &str, args: &[String]) -> Result<ProcessOutput, String> {
        self.calls
            .borrow_mut()
            .push((program.to_string(), args.to_vec()));
        if self.fail {
            return Err("program not found".to_string());
        }
        Ok(ProcessOutput {
            status: 0,
            stdout: "ok".into(),
            stderr: String::new(),
        })
    }
}

#[derive(Default)]
struct Recorder {
    lines: Vec<String>,
}

impl LineObserver for Recorder {
    fn observe(&mut self, line: &str) {
        self.lines.push(line.to_string());
    }
}

#[test]
fn windows_language_steps_use_powershell_install_backend() {
    for item_id in [
        "rust", "nodejs", "python", "java", "go", "dotnet", "php", "ruby",
    ] {
        let step = planned_windows_step(item_id);
        let runner = FakeRunner::default();

        let result = execute_install_step_with_runner(
            ExecutionRequest {
                step,
                dry_run: false,
                network_profile: None,
            },
            OperatingSystem::Windows,
            false,
            &mut ProcessRuns::new(&runner),
        )
        .expect("execution result");

        assert_eq!(result.status, ExecutionStatus::Completed, "{item_id}");
        let calls = runner.calls.borrow();
        let (program, args) = calls.first().expect("one process call");
        assert_eq!(program, "powershell.exe", "{item_id}");
        assert!(
            args.iter().any(|arg| arg.contains("Invoke-WebRequest")),
            "expected download script for {item_id}: {args:?}"
        );
    }
}

#[test]
fn windows_archive_installers_use_fresh_zip_staging_instead_of_expand_archive() {
    for item_id in ["java", "go"] {
        let script =
            captured_windows_script(planned_windows_step(item_id), NetworkProfile::default());

        assert!(
            script.contains("[Guid]::NewGuid()"),
            "expected unique extraction staging directory for {item_id}: {script}"
        );
        assert!(
            script.contains("[System.IO.Compression.ZipFile]::ExtractToDirectory"),
            "expected .NET zip extraction for {item_id}: {script}"
        );
        assert!(
            !script.contains("Expand-Archive"),
            "PowerShell Expand-Archive should not be used for {item_id}: {script}"
        );
    }
}

#[test]
fn windows_language_downloads_use_curl_fallback_and_custom_proxy() {
    let script = captured_windows_script(
        planned_windows_step("rust"),
        NetworkProfile {
            mode: NetworkMode::CustomProxy,
            proxy_url: Some("http://127.0.0.1:7890".into()),
            mirror_region: None,
        },
    );

    assert!(script.contains("curl.exe"), "{script}");
    assert!(script.contains("Invoke-WebRequest"), "{script}");
    assert!(
        script.contains("$env:HTTP_PROXY = 'http://127.0.0.1:7890'"),
        "{script}"
    );
    assert!(
        script.contains("$env:HTTPS_PROXY = 'http://127.0.0.1:7890'"),
        "{script}"
    );
    assert!(script.contains("--proxy"), "{script}");
}

#[test]
fn completed_process_output_includes_command_stdout_for_terminal_display() {
    let mut step = planned_windows_step("rust");
    step.item_id = "unknown-tool".into();
    step.command = Some("cmd".into());
    step.args = vec!["/C".into(), "echo installing".into()];
    step.url = None;
    let runner = FakeRunner {
        fail: false,
        ..FakeRunner::default()
    };

    let result = execute_install_step_with_runner(
        ExecutionRequest {
            step,
            dry_run: false,
            network_profile: None,
        },
        OperatingSystem::Windows,
        false,
        &mut ProcessRuns::new(&runner),
    )
    .expect("execution result");

    assert_eq!(result.status, ExecutionStatus::Completed);
    assert!(result.message.contains("ok"));
}

#[test]
fn execution_observer_receives_process_output_for_terminal_streaming() {
    let mut step = planned_windows_step("rust");
    step.item_id = "unknown-tool".into();
    step.command = Some("cmd".into());
    step.args = vec!["/C".into(), "echo installing".into()];
    step.url = None;
    let runner = FakeRunner::default();
    let mut observed = Recorder::default();

    let result = execute_install_step_with_runner_and_observer(
        ExecutionRequest {
            step,
            dry_run: false,
            network_profile: None,
        },
        OperatingSystem::Windows,
        false,
        &mut ProcessRuns::new(&runner),
        &mut HandedLines::new(&mut observed),
    )
    .expect("execution result");

    assert_eq!(result.status, ExecutionStatus::Completed);
    assert!(observed.lines.iter().any(|line| line.contains("ok")));
}

#[test]
fn missing_generic_program_returns_failed_result_instead_of_error() {
    let mut step = planned_windows_step("rust");
    step.item_id = "unknown-tool".into();
    step.command = Some("definitely-missing-program".into());
    step.url = None;
    let runner = FakeRunner {
        fail: true,
        ..FakeRunner::default()
    };

    let result = execute_install_step_with_runner(
        ExecutionRequest {
            step,
            dry_run: false,
            network_profile: None,
        },
        OperatingSystem::Windows,
        false,
        &mut ProcessRuns::new(&runner),
    )
    .expect("missing command is converted to failed execution result");

    assert_eq!(result.status, ExecutionStatus::Failed);
    assert!(result.message.contains("Program not found"));
}

fn planned_windows_step(item_id: &str) -> PlannedStep {
    let catalog = seed_catalog();
    let plan = build_install_plan(
        &catalog,
        &[PlanSelection {
            item_id: item_id.into(),
            version: None,
        }],
        &NetworkProfile::default(),
        OperatingSystem::Windows,
    )
    .expect("plan builds");
    plan.steps
        .into_iter()
        .find(|step| step.item_id == item_id)
        .expect("planned step")
}

fn captured_windows_script(step: PlannedStep, network_profile: NetworkProfile) -> String {
    let runner = FakeRunner::default();
    let result = execute_install_step_with_runner(
        ExecutionRequest {
            step,
            dry_run: false,
            network_profile: Some(network_profile),
        },
        OperatingSystem::Windows,
        false,
        &mut ProcessRuns::new(&runner),
    )
    .expect("execution result");

    assert_eq!(result.status, ExecutionStatus::Completed);
    let script = runner
        .calls
        .borrow()
        .first()
        .and_then(|(_, args)| args.last().cloned())
        .expect("captured powershell script");
    script
}

fn request(step: PlannedStep, dry_run: bool) -> ExecutionRequest {
    ExecutionRequest { step, dry_run, network_profile: None }
}

#[test]
fn dry_run_previews_without_running_and_tells_the_observer() {
    let step = planned_windows_step("git");
    let runner = FakeRunner::default();
    let mut observed = Recorder::default();
    let result = execute_install_step_with_runner_and_observer(request(step, true), OperatingSystem::Windows, false, &mut ProcessRuns::new(&runner), &mut HandedLines::new(&mut observed)).unwrap();
    assert_eq!(result.status, ExecutionStatus::DryRun);
    assert_eq!(result.step_id, "git:git-setup");
    assert_eq!(result.message, "Dry run: download https://git-scm.com/download, then run `git-installer /silent`");
    assert_eq!(observed.lines, vec![result.message.clone()]);
    assert!(result.log_path.is_none());
    assert!(runner.calls.borrow().is_empty());
}

#[test]
fn command_preview_covers_every_shape() {
    let args = vec!["-y".to_string(), "--quiet".to_string()];
    assert_eq!(command_preview(Some("apt"), &args, Some("https://x")), "Dry run: download https://x, then run `apt -y --quiet`");
    assert_eq!(command_preview(Some("apt"), &args, None), "Dry run: run `apt -y --quiet`");
    assert_eq!(command_preview(Some("apt"), &[], None), "Dry run: run `apt `");
    assert_eq!(command_preview(None, &args, Some("https://x")), "Dry run: download https://x");
    assert_eq!(command_preview(None, &args, None), "Dry run: configuration-only step");
}

#[test]
fn privileged_step_without_rights_is_not_run() {
    let step = planned_windows_step("docker");
    assert!(step.permissions.requires_admin);
    let req = request(step.clone(), false);
    assert!(privilege_check_needed(&req, OperatingSystem::Linux));
    let runner = FakeRunner::default();
    let result = execute_install_step_with_runner(req, OperatingSystem::Linux, false, &mut ProcessRuns::new(&runner)).unwrap();
    assert_eq!(result.status, ExecutionStatus::NeedsPrivilege);
    assert_eq!(result.message, "This step requires administrator privileges. Re-run through the platform elevation prompt.");
    assert!(runner.calls.borrow().is_empty());

    let runner = FakeRunner::default();
    let result = execute_install_step_with_runner(request(step, false), OperatingSystem::Linux, true, &mut ProcessRuns::new(&runner)).unwrap();
    assert_eq!(result.status, ExecutionStatus::Completed);
    assert_eq!(runner.calls.borrow()[0], ("docker-installer".to_string(), vec!["install".to_string(), "--quiet".to_string()]));
}

#[test]
fn installer_steps_do_not_ask_for_privileges() {
    let mut step = planned_windows_step("rust");
    step.permissions.requires_admin = true;
    let req = request(step, false);
    assert!(!privilege_check_needed(&req, OperatingSystem::Windows));
    assert!(privilege_check_needed(&req, OperatingSystem::Linux));
    assert!(!privilege_check_needed(&request(planned_windows_step("docker"), true), OperatingSystem::Linux));
}

#[test]
fn step_without_command_fails() {
    let mut step = planned_windows_step("git");
    step.command = None;
    let runner = FakeRunner::default();
    let result = execute_install_step_with_runner(request(step, false), OperatingSystem::Macos, false, &mut ProcessRuns::new(&runner)).unwrap();
    assert_eq!(result.status, ExecutionStatus::Failed);
    assert_eq!(result.message, "No executable command is defined for this step.");
}

#[test]
fn decide_step_action_launches_powershell_with_fixed_arguments() {
    let step = planned_windows_step("go");
    match decide_step_action(&request(step, false), OperatingSystem::Windows, false) {
        StepAction::Launch { program, args } => {
            assert_eq!(program, "powershell.exe");
            assert_eq!(&args[..4], &["-NoProfile", "-ExecutionPolicy", "Bypass", "-Command"]);
            assert!(args[4].starts_with("$ErrorActionPreference = 'Stop'"));
            assert!(args[4].contains("go.dev/dl"));
        }
        StepAction::Finish(_) => panic!("expected a launch"),
    }
}

#[test]
fn process_result_reports_status_and_trimmed_output() {
    let ok = Ok(ProcessOutput { status: 0, stdout: "  done\n".into(), stderr: "warn\n\n".into() });
    let r = process_result("s1", "tool", &ok);
    assert_eq!((r.step_id.as_str(), r.status, r.message.as_str()), ("s1", ExecutionStatus::Completed, "done\n\nwarn"));
    let bad = Ok(ProcessOutput { status: 3, stdout: String::new(), stderr: String::new() });
    let r = process_result("s1", "tool", &bad);
    assert_eq!((r.status, r.message.as_str()), (ExecutionStatus::Failed, ""));
    let err: Result<ProcessOutput, String> = Err("no such file".into());
    let r = process_result("s1", "tool", &err);
    assert_eq!(r.status, ExecutionStatus::Failed);
    assert_eq!(r.message, "Program not found or could not be started: tool. no such file");
}

#[test]
fn default_observer_gets_stdout_lines_then_stderr_lines() {
    struct Talky;
    impl ProcessRunner for Talky {
        fn run(&self, _program: &str, _args: &[String]) -> Result<ProcessOutput, String> {
            Ok(ProcessOutput { status: 0, stdout: "a\r\nb\n\nc".into(), stderr: "e1\ne2\n".into() })
        }
    }
    let mut rec = Recorder::default();
    let out = Talky.run_with_observer("x", &[], &mut HandedLines::new(&mut rec)).unwrap();
    assert_eq!(out.status, 0);
    assert_eq!(rec.lines, vec!["a", "b", "", "c", "e1", "e2"]);
}

#[test]
fn observed_lines_go_to_their_stream() {
    let mut stdout = String::new();
    let mut stderr = String::new();
    let mut rec = Recorder::default();
    let mut sink = HandedLines::new(&mut rec);
    append_observed_line("stdout", "one".into(), &mut stdout, &mut stderr, &mut sink);
    append_observed_line("stderr", "two".into(), &mut stdout, &mut stderr, &mut sink);
    append_observed_line("other", "three".into(), &mut stdout, &mut stderr, &mut sink);
    drop(sink);
    assert_eq!(stdout, "one\nthree\n");
    assert_eq!(stderr, "two\n");
    assert_eq!(rec.lines, vec!["one", "two", "three"]);
}

#[test]
fn proxy_urls_are_trimmed_and_escaped() {
    let profile = NetworkProfile { mode: NetworkMode::CustomProxy, proxy_url: Some("  http://o'neil:1 ".into()), mirror_region: None };
    let prelude = powershell_prelude(&profile);
    assert!(prelude.contains("$env:HTTP_PROXY = 'http://o''neil:1'\n$env:HTTPS_PROXY = 'http://o''neil:1'\nfunction Write-ElvPath"));
    let blank = NetworkProfile { mode: NetworkMode::CustomProxy, proxy_url: Some("   ".into()), mirror_region: None };
    assert!(!powershell_prelude(&blank).contains("HTTP_PROXY ="));
    let official = NetworkProfile { mode: NetworkMode::Official, proxy_url: Some("http://p".into()), mirror_region: None };
    assert!(!powershell_prelude(&official).contains("HTTP_PROXY ="));
    assert_eq!(escape_powershell_single_quoted("it's 'x'"), "it''s ''x''");
}

#[test]
fn only_language_runtimes_have_installer_scripts() {
    let mut step = planned_windows_step("git");
    assert!(windows_language_installer_script(&step, &NetworkProfile::default()).is_none());
    step.item_id = "ruby".into();
    let script = windows_language_installer_script(&step, &NetworkProfile::default()).unwrap();
    assert!(script.starts_with("$ErrorActionPreference = 'Stop'\n"));
    assert!(script.contains("rubyinstaller2"));
    assert!(script.contains("function Invoke-ElvPathRest([string]$Url, [hashtable]$Headers) {"));
}

#[test]
fn rollback_reports_target_and_english_instructions() {
    let change = ConfigChangeTemplate {
        target: "PATH".into(),
        action: ConfigAction::SetValue,
        value: "/opt/x".into(),
        backup_hint: text("backup"),
        rollback: text("remove /opt/x"),
    };
    let r = rollback_config_change(change);
    assert_eq!(r.target, "PATH");
    assert_eq!(r.message, "remove /opt/x");
}

#[test]
fn requests_are_dry_runs_by_default() {
    assert!(default_dry_run());
}

#[test]
fn a_launch_runs_its_program_once_with_its_arguments() {
    let mut step = planned_windows_step("rust");
    step.item_id = "unknown-tool".into();
    step.command = Some("cmd".into());
    step.args = vec!["/C".into(), "echo installing".into()];
    let runner = FakeRunner::default();
    let mut observed = Recorder::default();
    let result = execute_install_step_with_runner_and_observer(
        request(step, false),
        OperatingSystem::Linux,
        true,
        &mut ProcessRuns::new(&runner),
        &mut HandedLines::new(&mut observed),
    )
    .unwrap();
    assert_eq!(result.status, ExecutionStatus::Completed);
    assert_eq!(
        *runner.calls.borrow(),
        vec![("cmd".to_string(), vec!["/C".to_string(), "echo installing".to_string()])]
    );
    assert_eq!(observed.lines, vec!["ok".to_string()]);
}
