use scripty::language_pool::LanguagePool;
use scripty::tasks::Env;
use scripty::tasks::RawTask;

fn catalog() -> LanguagePool {
    LanguagePool::new(vec![
        ("python".to_string(), "py\npython3 code.py".to_string()),
        ("rust".to_string(), "rs\ncargo run".to_string()),
    ])
}

#[test]
fn to_task() {
    let pool = catalog();
    let correct = "~run ```python\ntest\n```";
    let incorrect = "~run ```kotlin\ntest\n```";

    let r = RawTask::from_command(correct).unwrap();
    let _ = r.to_task(&pool).unwrap();

    let r = RawTask::from_command(incorrect).unwrap();
    let _ = r.to_task(&pool).unwrap_err();
}

#[test]
fn env_from() {
    let pool = catalog();
    let correct = "~run ```python\ntest\n```";

    let r = RawTask::from_command(correct).unwrap();
    let t = r.to_task(&pool).unwrap();
    let (env, code) = Env::from(t, "scripts");
    assert_eq!(code, "test");

    let uuid = env.get_uuid();
    assert_eq!(uuid.len(), 36);
    assert!(uuid.chars().all(|c| c.is_ascii_hexdigit() || c == '-'));
    assert_eq!(env.get_path(), format!("scripts/{}", uuid));
    assert_eq!(env.executor_image(), "python_executor");
}

#[test]
fn separate_runs_stage_in_separate_directories() {
    let pool = catalog();
    let cmd = "~run ```python\nprint('hi')\n```";

    let t1 = RawTask::from_command(cmd).unwrap().to_task(&pool).unwrap();
    let (env1, _) = Env::from(t1, "scripts");
    let t2 = RawTask::from_command(cmd).unwrap().to_task(&pool).unwrap();
    let (env2, _) = Env::from(t2, "scripts");

    assert_ne!(env1.get_uuid(), env2.get_uuid());
    assert_ne!(env1.get_path(), env2.get_path());
}

#[test]
fn task_keeps_resolved_language() {
    let pool = catalog();
    let r = RawTask::from_command("~run ```rust\nfn main() {}\n```").unwrap();
    let t = r.to_task(&pool).unwrap();
    assert_eq!(t.lang.get_name(), "rust");
    assert_eq!(t.lang.get_extension(), "rs");
    assert_eq!(t.code, "fn main() {}");
}
