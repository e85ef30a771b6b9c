use savecodex::runner::{
    build_failure, clean_output, command_line, plan_run, prepare_input, replace_vars, run_command,
    timeout_output, FileParts, LangConfig, LangTable, OsSpecificConfig, RunError, TargetOs,
};

fn s(v: &[&str]) -> Vec<String> {
    v.iter().map(|x| x.to_string()).collect()
}

fn cfg(build: Option<&[&str]>, run: &[&str]) -> LangConfig {
    LangConfig { build: build.map(s), run: s(run), windows: None, macos: None, linux: None }
}

fn file() -> FileParts {
    FileParts { path: "src/main.c".to_string(), parent: Some("src".to_string()), stem: "main".to_string() }
}

#[test]
fn os_overrides_replace_given_commands() {
    let mut c = cfg(Some(&["gcc", "{file}"]), &["./a.out"]);
    c.windows = Some(OsSpecificConfig { build: None, run: Some(s(&["a.exe"])) });
    c.linux = Some(OsSpecificConfig { build: Some(s(&["cc", "{file}"])), run: None });
    let w = LangConfig { build: c.build.clone(), run: c.run.clone(), windows: Some(OsSpecificConfig { build: None, run: Some(s(&["a.exe"])) }), macos: None, linux: None }.resolve_os(TargetOs::Windows);
    assert_eq!(w.build, Some(s(&["gcc", "{file}"])));
    assert_eq!(w.run, s(&["a.exe"]));
    assert!(w.windows.is_none());
    let l = c.resolve_os(TargetOs::Linux);
    assert_eq!(l.build, Some(s(&["cc", "{file}"])));
    assert_eq!(l.run, s(&["./a.out"]));
    assert!(l.linux.is_none());
    assert!(l.windows.is_some());
    let m = cfg(None, &["python3", "{file}"]).resolve_os(TargetOs::Macos);
    assert_eq!(m.build, None);
    assert_eq!(m.run, s(&["python3", "{file}"]));
}

#[test]
fn table_insert_get_and_layering() {
    let mut base = LangTable::from_entries(vec![
        ("py".to_string(), cfg(None, &["python"])),
        ("c".to_string(), cfg(Some(&["gcc"]), &["./a.out"])),
        ("py".to_string(), cfg(None, &["python3"])),
    ]);
    assert_eq!(base.get("py").unwrap().run, s(&["python3"]));
    assert!(base.contains_key("c"));
    assert!(!base.contains_key("rs"));
    assert!(base.get("rs").is_none());
    let over = LangTable::from_entries(vec![
        ("c".to_string(), cfg(Some(&["clang"]), &["./a.out"])),
        ("rs".to_string(), cfg(Some(&["rustc"]), &["./main"])),
    ]);
    base.extend(over);
    assert_eq!(base.get("c").unwrap().build, Some(s(&["clang"])));
    assert_eq!(base.get("py").unwrap().run, s(&["python3"]));
    assert!(base.contains_key("rs"));
    base.insert("py".to_string(), cfg(None, &["pypy"]));
    assert_eq!(base.get("py").unwrap().run, s(&["pypy"]));
    let mut t = LangTable::new();
    let mut c = cfg(None, &["node"]);
    c.macos = Some(OsSpecificConfig { build: None, run: Some(s(&["bun"])) });
    t.insert("js".to_string(), c);
    let t = t.resolve_all(TargetOs::Macos);
    assert_eq!(t.get("js").unwrap().run, s(&["bun"]));
}

#[test]
fn variables_are_filled_in() {
    let args = s(&["gcc", "{file}", "-o", "{dir}/{file_stem}"]);
    assert_eq!(replace_vars(&args, &file()), s(&["gcc", "src/main.c", "-o", "src/main"]));
    let bare = FileParts { path: "a.py".to_string(), parent: Some(String::new()), stem: "a".to_string() };
    assert_eq!(replace_vars(&s(&["{dir}/{file_stem}"]), &bare), s(&["./a"]));
    let none = FileParts { path: "/".to_string(), parent: None, stem: String::new() };
    assert_eq!(replace_vars(&s(&["{dir}"]), &none), s(&["."]));
}

#[test]
fn planning_and_errors() {
    let table = LangTable::from_entries(vec![
        ("c".to_string(), cfg(Some(&["gcc", "{file}"]), &["{dir}/a.out"])),
        ("x".to_string(), cfg(Some(&[]), &["run"])),
        ("e".to_string(), cfg(None, &[])),
    ]);
    assert!(matches!(plan_run(None, &table, &file()), Err(RunError::NoExtension)));
    match plan_run(Some("zz"), &table, &file()) {
        Err(RunError::NoConfiguration(e)) => assert_eq!(e, "zz"),
        _ => panic!("expected a missing configuration"),
    }
    assert!(matches!(plan_run(Some("x"), &table, &file()), Err(RunError::EmptyBuildCommand)));
    let plan = plan_run(Some("c"), &table, &file()).ok().unwrap();
    assert_eq!(plan.build, Some(s(&["gcc", "src/main.c"])));
    assert_eq!(run_command(&plan).ok().unwrap(), &s(&["src/a.out"]));
    let plan = plan_run(Some("e"), &table, &file()).ok().unwrap();
    assert!(matches!(run_command(&plan), Err(RunError::EmptyRunCommand)));
    assert_eq!(RunError::NoExtension.message(), "File has no extension");
    assert_eq!(RunError::NoConfiguration("zz".to_string()).message(), "No configuration for extension: zz");
    assert_eq!(RunError::EmptyBuildCommand.message(), "Empty build command");
    assert_eq!(RunError::EmptyRunCommand.message(), "Empty run command");
}

#[test]
fn input_and_output_text() {
    assert_eq!(prepare_input("3\\n4\\t5\\r"), "3\n4\t5\r");
    assert_eq!(prepare_input("plain"), "plain");
    assert_eq!(clean_output("hi\n^D\x08\x08bye^D"), "hi\nbye");
    assert_eq!(timeout_output("partial"), "partial\n\n[Timeout after 10 seconds]");
    assert_eq!(command_line(&s(&["python3", "a.py"])), "python3 a.py");
    let (cmd, err) = build_failure(&s(&["gcc", "a.c"]), "error: x");
    assert_eq!((cmd.as_str(), err.as_str()), ("gcc a.c", "error: x"));
}
