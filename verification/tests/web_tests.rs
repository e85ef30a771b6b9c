use savecodex::term::WindowStyle;
use savecodex::web::{
    admin_status, admin_verified, asset_path, asset_reply, content_disposition, extension_list,
    pack_failure_status, AssetReply, PackForm, UploadError, VerifyAdminPayload,
};

#[test]
fn admin_check() {
    let p = VerifyAdminPayload { admin_password: Some("pw".to_string()) };
    assert!(admin_verified(&p, "pw"));
    assert!(!admin_verified(&p, "other"));
    let empty = VerifyAdminPayload { admin_password: Some(String::new()) };
    assert!(!admin_verified(&empty, ""));
    assert!(!admin_verified(&VerifyAdminPayload { admin_password: None }, ""));
    assert_eq!(admin_status(true), 200);
    assert_eq!(admin_status(false), 401);
}

#[test]
fn form_fields() {
    let f = PackForm::new()
        .apply_field("ext", "py, c ,".to_string())
        .apply_field("padding", "12".to_string())
        .apply_field("style", "macos".to_string())
        .apply_field("page_break", "true".to_string())
        .apply_field("no_prompt_highlight", "yes".to_string())
        .apply_field("font_size", "20.5".to_string())
        .apply_field("unknown", "z".to_string());
    assert_eq!(f.ext, "py, c ,");
    assert_eq!(f.padding, 12);
    assert_eq!(f.style, WindowStyle::Macos);
    assert!(f.page_break);
    assert!(!f.no_prompt_highlight);
    assert_eq!(f.font_size, Some("20.5".to_string()));
    let f = f.apply_field("padding", "wide".to_string()).apply_field("style", "beos".to_string());
    assert_eq!(f.padding, 28);
    assert_eq!(f.style, WindowStyle::Windows);
}

#[test]
fn folder_named_by_first_file() {
    let f = PackForm::new().note_file(Some("hw3".to_string())).note_file(Some("other".to_string()));
    assert_eq!(f.folder_name, "hw3");
    assert!(f.got_files);
    let f = PackForm::new().note_file(None);
    assert_eq!(f.folder_name, "folder");
}

#[test]
fn api_key_choice() {
    let f = PackForm::new().apply_field("admin_password", "pw".to_string());
    assert_eq!(f.api_key("pw", "server-key").ok().unwrap(), "server-key");
    let f = PackForm::new().apply_field("gemini_api_key", "user-key".to_string());
    assert_eq!(f.api_key("pw", "server-key").ok().unwrap(), "user-key");
    let f = PackForm::new().apply_field("admin_password", "bad".to_string());
    let e = f.api_key("pw", "server-key").err().unwrap();
    assert!(matches!(e, UploadError::ApiKeyRequired));
    assert_eq!(e.message(), "API Key is required");
    let f = PackForm::new();
    assert!(f.api_key("", "k").is_err());
}

#[test]
fn environment_updates() {
    let f = PackForm::new().apply_field("ai_model", "m".to_string());
    let u = f.env_updates("k");
    let got: Vec<(&str, &str)> = u.iter().map(|(a, b)| (a.as_str(), b.as_str())).collect();
    assert_eq!(got, vec![("GEMINI_API_KEY", "k"), ("INPUT_API_KEY", "k"), ("INPUT_MODEL", "m")]);
    assert!(PackForm::new().env_updates("").is_empty());
}

#[test]
fn job_of_an_upload() {
    assert!(matches!(PackForm::new().job(), Err(UploadError::NoFiles)));
    assert_eq!(UploadError::NoFiles.message(), "no files uploaded");
    let f = PackForm::new()
        .note_file(Some("lab".to_string()))
        .apply_field("doc_title", "Report {}".to_string())
        .apply_field("cwd", "~/{}".to_string())
        .apply_field("ext", " java ".to_string());
    let j = f.job().ok().unwrap();
    assert_eq!(j.doc_title, Some("Report lab".to_string()));
    assert_eq!(j.doc_text, None);
    assert_eq!(j.options.cwd, "~/lab");
    assert_eq!(j.options.title, "bash");
    assert_eq!(j.extensions, vec!["java".to_string()]);
    assert_eq!(j.output_name, "lab_pack");
    assert_eq!(j.download_name, "lab_pack.docx");
    assert_eq!(content_disposition("lab_pack.docx"), "attachment; filename=\"lab_pack.docx\"");
}

#[test]
fn extension_lists() {
    assert!(extension_list("").is_empty());
    assert_eq!(extension_list("py, c,,  "), vec!["py".to_string(), "c".to_string()]);
}

#[test]
fn failure_status() {
    assert_eq!(pack_failure_status("HTTP error: Invalid API Key"), 400);
    assert_eq!(pack_failure_status("disk full"), 500);
}

#[test]
fn front_end_assets() {
    assert_eq!(asset_path("/"), "index.html");
    assert_eq!(asset_path(""), "index.html");
    assert_eq!(asset_path("//assets/app.js"), "assets/app.js");
    match asset_reply("assets/app.css", true, true) {
        AssetReply::Asset(m) => assert_eq!(m, "text/css"),
        _ => panic!("expected the asset"),
    }
    match asset_reply("blob.unknownext", true, true) {
        AssetReply::Asset(m) => assert_eq!(m, "application/octet-stream"),
        _ => panic!("expected the asset"),
    }
    assert!(matches!(asset_reply("x", false, true), AssetReply::Index));
    assert!(matches!(asset_reply("x", false, false), AssetReply::NotFound));
}
