use experiment_tracker::config::AppConfig;
use experiment_tracker::control::state::RunDialogState;
use experiment_tracker::docker::{
    container_status_message, docker_run_args, list_images, logs_text, no_container_message, plan_run, run_outcome,
    run_precheck, run_status_for, split_words, state_from_inspect, ContainerState, DockerInfo, DockerManager,
};
use experiment_tracker::models::RunStatus;
use experiment_tracker::platform::OsType;

#[test]
fn run_arguments() {
    let args = docker_run_args(
        "/home/u/exp/run_001",
        OsType::Linux,
        "/workspace/output",
        true,
        &[("SEED".to_string(), "7".to_string())],
        "pytorch/pytorch:latest",
        "  python   train.py --epochs 3 ",
    );
    assert_eq!(
        args,
        vec![
            "run", "--rm", "-d", "-v", "/home/u/exp/run_001:/workspace/output", "--gpus", "all", "-e", "SEED=7",
            "pytorch/pytorch:latest", "python", "train.py", "--epochs", "3",
        ]
    );
    let args = docker_run_args("C:\\exp\\r1", OsType::Windows, "/w", false, &[], "img", "");
    assert_eq!(args, vec!["run", "--rm", "-d", "-v", "/c/exp/r1:/w", "img"]);
    assert_eq!(split_words("a\tb  c\n"), vec!["a", "b", "c"]);
    assert!(split_words("   ").is_empty());
}

#[test]
fn container_table() {
    let mut m = DockerManager::new("/usr/bin/docker".to_string());
    m.track(1, "abc".to_string(), "img", "cmd");
    m.track(2, "def".to_string(), "img", "cmd");
    assert!(m.is_running(1));
    assert!(!m.is_running(3));
    assert_eq!(m.container_id(2), Some("def".to_string()));
    assert_eq!(m.running_containers(), vec![(1, "abc".to_string()), (2, "def".to_string())]);
    assert!(m.poll_update(1, ContainerState::Exited(0)));
    assert!(!m.is_running(1));
    assert!(!m.poll_update(2, ContainerState::Running));
    assert_eq!(m.running_containers(), vec![(2, "def".to_string())]);
    m.track(1, "xyz".to_string(), "img", "cmd");
    assert!(m.is_running(1));
    assert_eq!(m.run_ids(), vec![1, 2]);
    m.set_state(2, ContainerState::Exited(137));
    assert!(!m.is_running(2));
}

#[test]
fn inspected_states() {
    assert!(matches!(state_from_inspect("running\n", None), ContainerState::Running));
    assert!(matches!(state_from_inspect("exited\n", Some("3\n")), ContainerState::Exited(3)));
    assert!(matches!(state_from_inspect("exited", Some("garbage")), ContainerState::Exited(-1)));
    assert!(matches!(state_from_inspect("exited", None), ContainerState::Exited(-1)));
    match state_from_inspect(" paused ", None) {
        ContainerState::Failed(m) => assert_eq!(m, "Unexpected state: paused"),
        _ => panic!("expected a failure"),
    }
}

#[test]
fn run_statuses_and_messages() {
    assert_eq!(run_status_for(&ContainerState::Exited(0)), Some(RunStatus::Completed));
    assert_eq!(run_status_for(&ContainerState::Exited(1)), Some(RunStatus::Failed));
    assert_eq!(run_status_for(&ContainerState::Failed("x".to_string())), Some(RunStatus::Failed));
    assert_eq!(run_status_for(&ContainerState::Running), None);
    assert_eq!(container_status_message(&ContainerState::Exited(-1)), "Container exited (code -1)");
    assert_eq!(container_status_message(&ContainerState::Failed("boom".to_string())), "Container failed: boom");
    assert_eq!(container_status_message(&ContainerState::Building), "Container stopped");
    assert_eq!(no_container_message(12), "No container found for run 12");
    assert_eq!(logs_text("out\n", "err\n"), "out\nerr\n");
}

#[test]
fn images_without_dangling_ones() {
    let out = "pytorch/pytorch:latest\n<none>:<none>\n\n  thesis-training:latest  \n";
    assert_eq!(list_images(out), vec!["pytorch/pytorch:latest", "thesis-training:latest"]);
}

#[test]
fn health_and_prechecks() {
    let info = DockerInfo::from_checks("Docker version 24.0.7\n", true, false);
    assert!(info.installed);
    assert!(info.running);
    assert!(!info.gpu_support);
    assert_eq!(info.version, "Docker version 24.0.7");
    let not_installed = DockerInfo::from_checks("", false, true);
    assert!(!not_installed.installed);
    assert!(!not_installed.gpu_support);

    let config = AppConfig::default_config();
    let d = RunDialogState::new(&config, 1);
    assert_eq!(run_precheck(&d, false, &None), Err("Docker not available".to_string()));
    assert_eq!(
        run_precheck(&d, true, &Some(info.clone())),
        Err("Docker GPU support not available. Install nvidia-container-toolkit.".to_string())
    );
    let stopped = DockerInfo::from_checks("v", false, false);
    assert_eq!(run_precheck(&d, true, &Some(stopped)), Err("Docker daemon is not running".to_string()));
    assert_eq!(run_precheck(&d, true, &None), Ok(()));
}

#[test]
fn run_plan_and_outcome() {
    let config = AppConfig::default_config();
    let d = RunDialogState::new(&config, 3);
    let p = plan_run(&d, &config, "/home/u");
    assert_eq!(p.output_dir, "./experiments/run_003");
    assert_eq!(p.run_name, "run_003");
    assert_eq!(p.log_path, "./experiments/run_003/metrics.jsonl");
    assert_eq!(p.container_workdir, "/workspace/output");
    assert_eq!(run_outcome(true, "abc123\n", ""), Ok("abc123".to_string()));
    assert_eq!(run_outcome(false, "", " no such image \n"), Err("Docker run failed: no such image".to_string()));
}
