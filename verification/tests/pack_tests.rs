use savecodex::pack::{
    crop_size, default_output_name, detect_extension, files_with_extensions, folder_label,
    limit_output, natural_order_indices, resolve_title, run_error_text, screenshot_text, PackError,
};
use savecodex::runner::{LangConfig, LangTable};

fn cfg() -> LangConfig {
    LangConfig { build: None, run: vec!["x".to_string()], windows: None, macos: None, linux: None }
}

fn exts(v: &[Option<&str>]) -> Vec<Option<String>> {
    v.iter().map(|o| o.map(|s| s.to_string())).collect()
}

#[test]
fn names() {
    assert_eq!(folder_label(Some("hw1")), "hw1");
    assert_eq!(folder_label(None), "folder");
    assert_eq!(resolve_title(Some("Lab 2"), "hw1"), "Lab 2");
    assert_eq!(resolve_title(None, "hw1"), "hw1");
    assert_eq!(default_output_name("hw1"), "hw1_pack");
}

#[test]
fn detects_most_common_supported_extension() {
    let table = LangTable::from_entries(vec![("py".to_string(), cfg()), ("c".to_string(), cfg())]);
    let files = exts(&[Some("md"), Some("md"), Some("md"), Some("c"), Some("py"), Some("c"), None]);
    assert_eq!(detect_extension(&files, &table).ok().unwrap(), "c");
    let none = exts(&[Some("md"), None]);
    let err = detect_extension(&none, &table);
    assert!(matches!(err, Err(PackError::NoSupportedExtension)));
    assert_eq!(
        PackError::NoSupportedExtension.message(),
        "Auto-detection failed: no files with supported extensions found in folder."
    );
}

#[test]
fn selects_files_by_extension() {
    let files = exts(&[Some("py"), Some("txt"), None, Some("py"), Some("c")]);
    let chosen = vec!["py".to_string(), "c".to_string()];
    assert_eq!(files_with_extensions(&files, &chosen), vec![0, 3, 4]);
    assert!(files_with_extensions(&files, &Vec::new()).is_empty());
}

#[test]
fn natural_order_of_names() {
    let names: Vec<String> = ["rfc2086.txt", "rfc822.txt", "rfc1.txt"].iter().map(|s| s.to_string()).collect();
    let order = natural_order_indices(&names);
    assert_eq!(order, vec![2, 1, 0]);
    let names: Vec<String> = ["q10.py", "q2.py", "q1.py", "a/q3.py", "q2.py"].iter().map(|s| s.to_string()).collect();
    let order = natural_order_indices(&names);
    assert_eq!(order, vec![3, 2, 1, 4, 0]);
}

#[test]
fn output_is_limited() {
    assert_eq!(limit_output("a\nb"), "a\nb\n");
    assert_eq!(limit_output(""), "\n");
    let long = "x".repeat(250);
    assert_eq!(limit_output(&long), format!("{}... [line truncated]\n", "x".repeat(200)));
    let wide = format!("{}é", "x".repeat(198));
    assert_eq!(limit_output(&wide), format!("{}\n", wide));
    let many: Vec<String> = (0..160).map(|i| i.to_string()).collect();
    let out = limit_output(&many.join("\n"));
    let expected: String = (0..150).map(|i| format!("{}\n", i)).collect::<String>()
        + "\n... [output truncated due to length] ...\n";
    assert_eq!(out, expected);
}

#[test]
fn screenshot_text_and_errors() {
    assert_eq!(screenshot_text("a.py", "hi", "$ ", false), "$ run a.py\nhi\n");
    assert_eq!(screenshot_text("a.py", "hi", "$ ", true), "hi\n");
    assert_eq!(run_error_text("boom"), "[Error running file: boom]");
}

#[test]
fn cropping() {
    assert_eq!(crop_size(100, 100), None);
    assert_eq!(crop_size(5000, 100), Some((4000, 100)));
    assert_eq!(crop_size(300, 20000), Some((300, 10000)));
    assert_eq!(crop_size(4000, 10000), None);
}

#[test]
fn natural_order_keeps_equal_names_in_place() {
    // natord skips whitespace, so these names compare equal.
    let names: Vec<String> = ["b", "a b", "ab", "a"].iter().map(|s| s.to_string()).collect();
    assert_eq!(natural_order_indices(&names), vec![3, 1, 2, 0]);
    let names: Vec<String> = ["ab", "a b"].iter().map(|s| s.to_string()).collect();
    assert_eq!(natural_order_indices(&names), vec![0, 1]);
}
