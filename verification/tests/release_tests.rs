use codex_quota_bar::release::{
    after_check, after_download, after_launch, begin_install, download_http_error, github_http_error,
    installer_file_name, installer_script, is_newer_version, powershell_literal, select_release,
    version_parts, windows_command_path, GithubAsset, UpdateRelease, UpdateStatus,
};

#[test]
fn compares_release_versions_numerically() {
    assert!(is_newer_version("0.4.0", "v0.4.1"));
    assert!(is_newer_version("0.9.9", "1.0.0"));
    assert!(!is_newer_version("0.4.1", "0.4.1"));
    assert!(!is_newer_version("0.5.0", "0.4.9"));
}

#[test]
fn normalizes_extended_windows_paths_for_restart() {
    assert_eq!(
        windows_command_path(r"\\?\C:\Program Files\Codex\app.exe"),
        r"C:\Program Files\Codex\app.exe"
    );
    assert_eq!(
        powershell_literal("C:\\It's\\app.exe"),
        "C:\\It''s\\app.exe"
    );
}

#[test]
fn version_parts_read_leading_digits() {
    assert_eq!(version_parts("vV1.2rc3.x"), vec![1, 2, 0]);
    assert_eq!(version_parts(""), vec![0]);
    assert_eq!(version_parts("1..2"), vec![1, 0, 2]);
    assert_eq!(version_parts("99999999999999999999.1"), vec![0, 1]);
    assert_eq!(version_parts("18446744073709551615"), vec![u64::MAX]);
    assert!(!is_newer_version("1.0", "1.0.0"));
    assert!(is_newer_version("1.0", "1.0.1"));
    assert!(is_newer_version("0.10.0", "0.11"));
}

#[test]
fn unc_paths_keep_their_double_backslash() {
    assert_eq!(windows_command_path(r"\\?\UNC\server\share\a.msi"), r"\\server\share\a.msi");
    assert_eq!(windows_command_path(r"C:\a.msi"), r"C:\a.msi");
}

fn asset(name: &str, url: &str) -> GithubAsset {
    GithubAsset { name: name.into(), browser_download_url: url.into() }
}

const BASE: &str = "https://github.com/Afterlife-lh/codex-quota-bar/releases/download/";

#[test]
fn selects_the_localized_x64_installer() {
    let assets = vec![
        asset("Codex.Quota.Bar_1.0.0_x64_en-US.msi", &format!("{BASE}v1.0.0/en.msi")),
        asset("Codex.Quota.Bar_1.0.0_X64_zh-CN.MSI", &format!("{BASE}v1.0.0/zh.msi")),
    ];
    let release = select_release("0.9.0", "v1.0.0", Some("notes".into()), &assets).unwrap().unwrap();
    assert_eq!(release.version, "1.0.0");
    assert_eq!(release.notes.as_deref(), Some("notes"));
    assert_eq!(release.download_url, format!("{BASE}v1.0.0/zh.msi"));
    let fallback = select_release("0.9.0", "1.0.0", None, &assets[..1].to_vec()).unwrap().unwrap();
    assert_eq!(fallback.download_url, format!("{BASE}v1.0.0/en.msi"));
    assert!(select_release("1.0.0", "v1.0.0", None, &assets).unwrap().is_none());
}

#[test]
fn refuses_missing_or_foreign_installers() {
    let none = vec![asset("app_x86.msi", &format!("{BASE}a.msi")), asset("app_x64.exe", &format!("{BASE}b.exe"))];
    assert_eq!(select_release("0.1.0", "0.2.0", None, &none).unwrap_err(), "新版本没有可用的 x64 MSI 安装包");
    let foreign = vec![asset("app_x64.msi", "https://example.com/app_x64.msi")];
    assert_eq!(select_release("0.1.0", "0.2.0", None, &foreign).unwrap_err(), "更新下载地址不属于受信任仓库");
}

#[test]
fn update_texts() {
    assert_eq!(github_http_error(403), "GitHub 返回 HTTP 403");
    assert_eq!(download_http_error(404), "更新下载返回 HTTP 404");
    assert_eq!(installer_file_name("1.2.3"), "Codex-Quota-Bar-1.2.3-x64-zh-CN.msi");
    let script = installer_script(r"\\?\C:\Temp\it's.msi", r"C:\App\app.exe");
    assert_eq!(
        script,
        "$msi='C:\\Temp\\it''s.msi';$exe='C:\\App\\app.exe';Start-Sleep -Seconds 2;& msiexec.exe /i $msi /passive /norestart;$code=$LASTEXITCODE;if($code -eq 0 -or $code -eq 3010){Remove-Item -LiteralPath $msi -Force -ErrorAction SilentlyContinue};if(Test-Path -LiteralPath $exe){Start-Process -FilePath $exe}"
    );
}

fn release() -> UpdateRelease {
    UpdateRelease { version: "1.0.0".into(), notes: Some("n".into()), download_url: "u".into() }
}

#[test]
fn update_flow_statuses() {
    let idle = UpdateStatus::idle("0.9.0".into());
    assert_eq!(idle.state, "idle");
    let up = after_check("0.9.0".into(), Ok(None), true);
    assert_eq!(up.status.state, "up_to_date");
    assert_eq!(up.status.message.as_deref(), Some("当前已是最新版本"));
    assert!(matches!(up.pending, Some(None)));
    assert!(!up.install);
    let available = after_check("0.9.0".into(), Ok(Some(release())), true);
    assert_eq!(available.status.state, "available");
    assert_eq!(available.status.available_version.as_deref(), Some("1.0.0"));
    assert_eq!(available.status.message.as_deref(), Some("n"));
    assert!(available.install);
    let failed = after_check("0.9.0".into(), Err("boom".into()), true);
    assert_eq!(failed.status.state, "error");
    assert!(failed.pending.is_none());
    assert!(!failed.install);

    let missing = begin_install("0.9.0".into(), None).unwrap_err();
    assert_eq!(missing.message.as_deref(), Some("请先检查更新"));
    let (rel, downloading) = begin_install("0.9.0".into(), Some(release())).unwrap();
    assert_eq!(rel.version, "1.0.0");
    assert_eq!(downloading.state, "downloading");
    assert_eq!(downloading.message.as_deref(), Some("正在下载更新…"));
    let installing = after_download("0.9.0".into(), "1.0.0".into(), Ok(())).unwrap();
    assert_eq!(installing.state, "installing");
    assert_eq!(installing.message.as_deref(), Some("即将安装并重启…"));
    assert_eq!(after_download("0.9.0".into(), "1.0.0".into(), Err("x".into())).unwrap_err().state, "error");
    assert!(after_launch("0.9.0".into(), Ok(())).is_none());
    assert_eq!(after_launch("0.9.0".into(), Err("y".into())).unwrap().message.as_deref(), Some("y"));
}
