use scripty::errors::ExecError;
use scripty::language_pool;
use scripty::language_pool::parse_lang_file;
use scripty::languages::Executable;
use scripty::languages::LanguagePool;

fn dirs(names: &[&str]) -> Vec<String> {
    names.iter().map(|n| n.to_string()).collect()
}

#[test]
fn lang_pool_new() {
    let pool = LanguagePool::new(dirs(&["python", "rust", "cpp"]));
    println!("{:?}", pool);
}

#[test]
fn lang_pool_supported() {
    let pool = LanguagePool::new(dirs(&["python", "rust", "cpp"]));
    let rs_supported = pool.lang_supported("rust");
    assert!(rs_supported);

    let cpp_supported = pool.lang_supported("cpp");
    assert!(cpp_supported);

    let ktl_supported = pool.lang_supported("kotlin");
    assert!(!ktl_supported);
}

#[test]
fn lang_pool_from_code_file() {
    let pool = LanguagePool::new(dirs(&["python", "rust", "cpp"]));
    let snippet = pool.from_code_file("cpp".into(), "test".into()).unwrap();
    let reference = Executable::new("cpp_executor".into(), "test".into());
    assert_eq!(snippet, reference);

    let snippet = pool.from_code_file("rust".into(), "test".into()).unwrap();
    let reference = Executable::new("rust_executor".into(), "test".into());
    assert_eq!(snippet, reference);
}

#[test]
fn lang_pool_rejects_unsupported() {
    let pool = LanguagePool::new(dirs(&["python"]));
    let err = pool.from_code_file("kotlin".into(), "test".into()).unwrap_err();
    assert_eq!(err, ExecError::UnsupportedLanguage);
}

#[test]
fn supported_listing_is_sorted_and_deduplicated() {
    let pool = LanguagePool::new(dirs(&["rust", "cpp", "python", "cpp"]));
    let listed = pool.get_supported();
    assert_eq!(listed, vec!["cpp".to_string(), "python".to_string(), "rust".to_string()]);
}

#[test]
fn supported_listing_of_empty_registry_is_empty() {
    let pool = LanguagePool::new(Vec::new());
    assert!(pool.get_supported().is_empty());
    assert!(!pool.lang_supported("python"));
}

fn catalog_files() -> Vec<(String, String)> {
    vec![
        ("python".to_string(), "py\npython3 code.py".to_string()),
        ("rust".to_string(), "rs\ncargo run".to_string()),
    ]
}

#[test]
fn create() {
    let pool = language_pool::LanguagePool::new(catalog_files());
    println!("{:?}", pool);
}

#[test]
fn get_language() {
    let pool = language_pool::LanguagePool::new(catalog_files());
    let supp_lang = "python";
    let unsupp_lang = "kotlin";
    pool.get(supp_lang).unwrap();
    pool.get(unsupp_lang).unwrap_err();
}

#[test]
fn parse_lang_file_splits_extension_and_launch() {
    let lang = parse_lang_file("python".to_string(), "py\npython3 code.py").unwrap();
    assert_eq!(lang.get_name(), "python");
    assert_eq!(lang.get_extension(), "py");
    assert_eq!(lang.get_launch(), "python3 code.py");
}

#[test]
fn parse_lang_file_keeps_multiline_launch() {
    let lang = parse_lang_file("rust".to_string(), "rs\nline one\nline two").unwrap();
    assert_eq!(lang.get_extension(), "rs");
    assert_eq!(lang.get_launch(), "line one\nline two");
}

#[test]
fn parse_lang_file_rejects_bad_contents() {
    let err = parse_lang_file("broken".to_string(), "no newline here").unwrap_err();
    assert_eq!(err, ExecError::InvalidCommand);
}

#[test]
fn catalog_skips_files_that_do_not_match() {
    let files = vec![
        ("good".to_string(), "py\nrun it".to_string()),
        ("bad".to_string(), "BROKEN".to_string()),
    ];
    let pool = language_pool::LanguagePool::new(files);
    let entry = pool.get("good").unwrap();
    assert_eq!(entry.get_extension(), "py");
    let err = pool.get("bad").unwrap_err();
    assert_eq!(err, ExecError::UnsupportedLanguage);
}

#[test]
fn executable_accessors() {
    let exe = Executable::new("python_executor".into(), "print('hi')".into());
    assert_eq!(exe.get_executor(), "python_executor");
    assert_eq!(exe.get_code(), "print('hi')");
}
