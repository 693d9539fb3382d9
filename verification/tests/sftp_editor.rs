use tinyshell::sftp_editor::{base_name, close_disposition, language_for_path, CloseDisposition};

#[test]
fn clean_editor_closes_without_confirmation() {
    assert_eq!(close_disposition(false), CloseDisposition::Close);
}

#[test]
fn dirty_editor_requires_confirmation() {
    assert_eq!(close_disposition(true), CloseDisposition::Confirm);
}

#[test]
fn base_name_is_the_last_path_segment() {
    assert_eq!(base_name("/etc/nginx/nginx.conf"), "nginx.conf");
    assert_eq!(base_name("notes.txt"), "notes.txt");
    assert_eq!(base_name("/var/log/"), "");
    assert_eq!(base_name("/配置/文件.yaml"), "文件.yaml");
}

#[test]
fn syntax_follows_the_extension_without_case() {
    assert_eq!(language_for_path("/etc/app/config.YAML"), Some("yaml"));
    assert_eq!(language_for_path("main.rs"), Some("rust"));
    assert_eq!(language_for_path("/srv/app.\u{212A}T"), Some("kotlin"));
    assert_eq!(language_for_path("README"), None);
    assert_eq!(language_for_path("archive.tar.gz"), None);
    assert_eq!(language_for_path("sh"), Some("bash"));
    assert_eq!(language_for_path("/home/u/.bashrc"), None);
}
