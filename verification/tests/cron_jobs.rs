use steersman_core::cronjobs::{
    add_cron_job, create_cron_job, cron_config_path, list_cron_jobs, pause_cron_job, remove_cron_job,
    resume_cron_job, trigger_cron_job, update_cron_job, CronConfigFile, CronJobConfig,
};

fn stored(schedule: &str, enabled: Option<bool>, name: Option<&str>) -> CronJobConfig {
    CronJobConfig {
        schedule: schedule.into(),
        prompt: None,
        enabled,
        name: name.map(|s| s.to_string()),
        deliver: None,
        skills: Some(vec!["s1".into()]),
        script: None,
    }
}

#[test]
fn listing_applies_defaults_and_filters_disabled() {
    let file = CronConfigFile::from_entries(vec![
        ("a".into(), stored("0 9 * * *", None, Some("Morning"))),
        ("b".into(), stored("0 18 * * *", Some(false), None)),
        ("a".into(), stored("0 10 * * *", None, Some("Later"))),
    ]);
    assert_eq!(file.jobs().len(), 2);
    let shown = list_cron_jobs(Some(&file), false);
    assert_eq!(shown.len(), 1);
    assert_eq!(shown[0].name, "Later");
    assert_eq!(shown[0].schedule, "0 10 * * *");
    assert_eq!(shown[0].state, "active");
    assert!(shown[0].enabled);
    assert_eq!(shown[0].prompt, "");
    assert_eq!(shown[0].skills, vec!["s1".to_string()]);
    let all = list_cron_jobs(Some(&file), true);
    assert_eq!(all.len(), 2);
    assert_eq!(all[1].name, "b");
    assert!(!all[1].enabled);
    assert!(list_cron_jobs(None, true).is_empty());
}

#[test]
fn create_pause_resume_remove() {
    let mut file = CronConfigFile::new();
    let job = add_cron_job(&mut file, "id-1", "*/5 * * * *", Some("check mail"), None, Some("telegram"));
    assert_eq!(job.name, "id-1");
    assert_eq!(job.deliver, vec!["telegram".to_string()]);
    assert_eq!(file.get("id-1").unwrap().enabled, Some(true));
    pause_cron_job(&mut file, "id-1").unwrap();
    assert!(list_cron_jobs(Some(&file), false).is_empty());
    assert_eq!(file.get("id-1").unwrap().prompt.as_deref(), Some("check mail"));
    resume_cron_job(&mut file, "id-1").unwrap();
    assert_eq!(list_cron_jobs(Some(&file), false).len(), 1);
    assert_eq!(pause_cron_job(&mut file, "nope").unwrap_err(), "Job 'nope' not found");
    remove_cron_job(&mut file, "id-1");
    assert!(file.get("id-1").is_none());
    remove_cron_job(&mut file, "id-1");
}

#[test]
fn created_jobs_get_fresh_ids() {
    let mut file = CronConfigFile::new();
    let a = create_cron_job(&mut file, "@daily", None, Some("A"), None);
    let b = create_cron_job(&mut file, "@daily", None, None, None);
    assert_ne!(a.id, b.id);
    assert_eq!(a.id.len(), 36);
    assert_eq!(b.name, b.id);
    assert_eq!(file.jobs().len(), 2);
}

#[test]
fn trigger_and_paths() {
    assert_eq!(trigger_cron_job("x").unwrap(), "Triggered job: x");
    assert_eq!(cron_config_path(None), vec![".hermes", "cron", "jobs.json"]);
    assert_eq!(cron_config_path(Some("w")), vec!["profiles", "w", ".hermes", "cron", "jobs.json"]);
}

#[test]
fn pausing_needs_the_jobs_file_and_the_job() {
    assert_eq!(update_cron_job(None, "a", false).unwrap_err(), "Cron config not found");
    let file = CronConfigFile::from_entries(vec![("a".into(), stored("0 9 * * *", None, None))]);
    assert_eq!(update_cron_job(Some(file), "zz", false).unwrap_err(), "Job 'zz' not found");
    let file = CronConfigFile::from_entries(vec![("a".into(), stored("0 9 * * *", None, None))]);
    let before: Vec<String> = list_cron_jobs(Some(&file), false).iter().map(|j| format!("{}:{}", j.id, j.enabled)).collect();
    let paused = update_cron_job(Some(file), "a", false).unwrap();
    assert!(list_cron_jobs(Some(&paused), false).is_empty());
    let resumed = update_cron_job(Some(paused), "a", true).unwrap();
    let after: Vec<String> = list_cron_jobs(Some(&resumed), false).iter().map(|j| format!("{}:{}", j.id, j.enabled)).collect();
    assert_eq!(before, after);
}
