use plus_api::builder::{
    installer_dir,
    branded_exe_name, check_storage, enabled, env_or, extract_exe, new_run, poll_step,
    poll_timeout, select_artifact, ArtifactInfo, BuilderConfig, BuilderEnv, PollAction,
    DISPATCH_ATTEMPTS, POLL_ATTEMPTS, POLL_INTERVAL_SECS,
};
use plus_api::error::AppError;
use std::io::Write;

fn env(token: Option<&str>, repo: Option<&str>) -> BuilderEnv {
    BuilderEnv {
        gh_token: token.map(|s| s.to_string()),
        gh_repo: repo.map(|s| s.to_string()),
        gh_workflow: None,
        gh_ref: None,
        rustdesk_ref: None,
        storage: None,
        installer_path: None,
    }
}

fn zip_of(entries: &[(&str, &[u8])]) -> Vec<u8> {
    let mut w = zip::ZipWriter::new(std::io::Cursor::new(Vec::new()));
    let options = zip::write::SimpleFileOptions::default()
        .compression_method(zip::CompressionMethod::Stored);
    for (name, data) in entries {
        w.start_file(*name, options).unwrap();
        w.write_all(data).unwrap();
    }
    w.finish().unwrap().into_inner()
}

#[test]
fn builder_is_on_only_for_truthy_values() {
    assert!(enabled(Some("1")));
    assert!(enabled(Some(" TRUE ")));
    assert!(enabled(Some("Yes")));
    assert!(enabled(Some("on")));
    assert!(!enabled(Some("0")));
    assert!(!enabled(Some("enabled")));
    assert!(!enabled(Some("")));
    assert!(!enabled(None));
}

#[test]
fn blank_settings_take_the_default() {
    assert_eq!(env_or(&None, "master"), "master");
    assert_eq!(env_or(&Some("   ".to_string()), "master"), "master");
    assert_eq!(env_or(&Some(" dev ".to_string()), "master"), " dev ");
}

#[test]
fn configuration_needs_token_and_repository() {
    let missing = AppError::Other(
        "CLIENT_BUILDER_GH_TOKEN e CLIENT_BUILDER_GH_REPO sao obrigatorios".to_string(),
    );
    assert_eq!(BuilderConfig::from_env(&env(None, Some("o/r"))), Err(missing.clone()));
    assert_eq!(BuilderConfig::from_env(&env(Some("t"), Some(" "))), Err(missing));
}

#[test]
fn configuration_fills_defaults() {
    let c = BuilderConfig::from_env(&env(Some("tok"), Some("owner/repo"))).unwrap();
    assert_eq!(c.repo, "owner/repo");
    assert_eq!(c.token, "tok");
    assert_eq!(c.workflow, "build-plain.yml");
    assert_eq!(c.git_ref, "master");
    assert_eq!(c.rustdesk_ref, "1.4.8");
    assert_eq!(c.storage, "local");
    assert_eq!(c.generated_dir, "/app/generated");

    let mut e = env(Some("tok"), Some("owner/repo"));
    e.gh_workflow = Some("custom.yml".to_string());
    e.storage = Some("s3".to_string());
    e.installer_path = Some("/data/out/setup.exe".to_string());
    let c = BuilderConfig::from_env(&e).unwrap();
    assert_eq!(c.workflow, "custom.yml");
    assert_eq!(c.storage, "s3");
    assert_eq!(c.generated_dir, "/data/out");

    let mut e = env(Some("tok"), Some("owner/repo"));
    e.installer_path = Some("/".to_string());
    assert_eq!(BuilderConfig::from_env(&e).unwrap().generated_dir, "/app/generated");
}

#[test]
fn configuration_without_installer_parent_uses_generated_dir() {
    let c = BuilderConfig::from_settings(&env(Some("tok"), Some("o/r")), None).unwrap();
    assert_eq!(c.generated_dir, "/app/generated");
    let c = BuilderConfig::from_settings(&env(Some("tok"), Some("o/r")), Some("/x".to_string()))
        .unwrap();
    assert_eq!(c.generated_dir, "/x");
}

#[test]
fn only_local_storage_is_implemented() {
    assert_eq!(check_storage("local"), Ok(()));
    assert_eq!(
        check_storage("s3"),
        Err("backend s3 ainda nao implementado (proximo passo)".to_string())
    );
    assert_eq!(
        check_storage("ftp"),
        Err("CLIENT_BUILDER_STORAGE invalido: ftp".to_string())
    );
}

#[test]
fn polling_waits_for_completion() {
    assert_eq!(poll_step(None), PollAction::KeepPolling);
    assert_eq!(poll_step(Some(("in_progress", None))), PollAction::KeepPolling);
    assert_eq!(poll_step(Some(("completed", Some("success")))), PollAction::Download);
    assert_eq!(
        poll_step(Some(("completed", Some("failure")))),
        PollAction::Failed("run concluido sem sucesso".to_string())
    );
    assert_eq!(
        poll_step(Some(("completed", None))),
        PollAction::Failed("run concluido sem sucesso".to_string())
    );
    assert_eq!(poll_timeout(), "timeout aguardando o build");
    assert_eq!(POLL_ATTEMPTS as u64 * POLL_INTERVAL_SECS, 5400);
    assert_eq!(DISPATCH_ATTEMPTS, 20);
}

#[test]
fn dispatched_run_is_the_newer_one() {
    assert_eq!(new_run(10, Some(11)), Some(11));
    assert_eq!(new_run(10, Some(10)), None);
    assert_eq!(new_run(10, None), None);
}

#[test]
fn artifact_is_chosen_by_name() {
    let arts = vec![
        ArtifactInfo { name: Some("other".to_string()), id: Some(1) },
        ArtifactInfo { name: Some("MyApp".to_string()), id: Some(2) },
        ArtifactInfo { name: Some("MyApp".to_string()), id: Some(3) },
    ];
    assert_eq!(select_artifact(Some(arts.clone()), "MyApp"), Ok(2));
    assert_eq!(
        select_artifact(Some(arts), "Missing"),
        Err("artifact nao encontrado".to_string())
    );
    assert_eq!(select_artifact(None, "MyApp"), Err("sem artifacts".to_string()));
    let no_id = vec![ArtifactInfo { name: Some("MyApp".to_string()), id: None }];
    assert_eq!(select_artifact(Some(no_id), "MyApp"), Err("artifact sem id".to_string()));
}

#[test]
fn branded_executable_is_named_by_client() {
    assert_eq!(
        branded_exe_name(0x67e55044_10b1_426f_9247_bb680e5fe0c8),
        "branded-67e55044-10b1-426f-9247-bb680e5fe0c8.exe"
    );
}

#[test]
fn executable_is_extracted_from_the_artifact() {
    let bytes = zip_of(&[("readme.txt", b"hello"), ("MyApp.EXE", b"MZ-binary"), ("b.exe", b"x")]);
    assert_eq!(extract_exe(bytes), Ok(b"MZ-binary".to_vec()));
}

#[test]
fn artifact_without_executable_is_refused() {
    let bytes = zip_of(&[("readme.txt", b"hello")]);
    assert_eq!(extract_exe(bytes), Err("nenhum .exe no artifact".to_string()));
    assert!(extract_exe(b"not a zip".to_vec()).is_err());
}

#[test]
fn generated_dir_is_the_installer_parent() {
    assert_eq!(installer_dir(&None), "/app/generated");
    assert_eq!(installer_dir(&Some("  ".to_string())), "/app/generated");
    assert_eq!(installer_dir(&Some("/srv/out/setup.exe".to_string())), "/srv/out");
    assert_eq!(installer_dir(&Some("/setup.exe".to_string())), "/");
    assert_eq!(installer_dir(&Some("/".to_string())), "/app/generated");
}
