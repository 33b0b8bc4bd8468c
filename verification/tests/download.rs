use context_pilot::download::{
    build_download_url, download_failure_marker, ensure_binary_step, failure_marker_content,
    is_download_recently_failed, marker_failure_time, zstd_result, InstallAction, InstallEvent, ZstdRun,
    DOWNLOAD_RETRY_SECS, TUWUNEL_VERSION,
};

#[test]
fn download_url_per_architecture() {
    assert_eq!(
        build_download_url("x86_64").unwrap(),
        "https://github.com/matrix-construct/tuwunel/releases/download/v1.5.1/v1.5.1-release-all-x86_64-v2-linux-gnu-tuwunel.zst"
    );
    assert_eq!(
        build_download_url("aarch64").unwrap(),
        "https://github.com/matrix-construct/tuwunel/releases/download/v1.5.1/v1.5.1-release-all-aarch64-linux-gnu-tuwunel.zst"
    );
    assert_eq!(build_download_url("riscv64").unwrap_err(), "Unsupported architecture for Tuwunel: riscv64");
    assert_eq!(TUWUNEL_VERSION, "v1.5.1");
    assert_eq!(DOWNLOAD_RETRY_SECS, 24 * 60 * 60);
}

#[test]
fn marker_path_and_content() {
    assert_eq!(
        download_failure_marker("/home/u/.context-pilot/bin/tuwunel"),
        "/home/u/.context-pilot/bin/tuwunel.download-failed"
    );
    assert_eq!(failure_marker_content(1700000000, "HTTP 404"), "1700000000\nHTTP 404\n");
}

#[test]
fn marker_time_is_first_line() {
    assert_eq!(marker_failure_time("1700000000\nHTTP 404\n"), Some(1700000000));
    assert_eq!(marker_failure_time("+42\r\nx"), Some(42));
    assert_eq!(marker_failure_time("abc\n"), None);
    assert_eq!(marker_failure_time(""), None);
    assert_eq!(marker_failure_time("18446744073709551616\n"), None);
}

#[test]
fn marker_written_then_read_back() {
    let content = failure_marker_content(123456, "Download returned HTTP 404 Not Found");
    assert_eq!(marker_failure_time(&content), Some(123456));
    let msg = is_download_recently_failed(&content, 0, 0).unwrap();
    assert_eq!(msg, "Download skipped (cached failure, retry in ~24h): Download returned HTTP 404 Not Found");
}

#[test]
fn recent_failure_reports_hours_left() {
    let content = "100\nnetwork down\n";
    assert_eq!(
        is_download_recently_failed(content, 3600, 0).unwrap(),
        "Download skipped (cached failure, retry in ~23h): network down"
    );
    assert_eq!(
        is_download_recently_failed(content, 3600, 1).unwrap(),
        "Download skipped (cached failure, retry in ~22h): network down"
    );
    assert_eq!(
        is_download_recently_failed("100", 86399, 0).unwrap(),
        "Download skipped (cached failure, retry in ~0h): download previously failed"
    );
}

#[test]
fn stale_failure_is_retried() {
    assert_eq!(is_download_recently_failed("100\nx\n", 86400, 0), None);
    assert_eq!(is_download_recently_failed("100\nx\n", 90000, 5), None);
}

#[test]
fn zstd_outcomes() {
    assert!(zstd_result(ZstdRun::Exited { success: true, code: Some(0) }).is_ok());
    assert_eq!(
        zstd_result(ZstdRun::NotFound).unwrap_err(),
        "zstd command not found. Install it: sudo apt install zstd (or equivalent)"
    );
    assert_eq!(zstd_result(ZstdRun::SpawnFailed("denied".to_string())).unwrap_err(), "Failed to run zstd: denied");
    assert_eq!(
        zstd_result(ZstdRun::Exited { success: false, code: Some(2) }).unwrap_err(),
        "zstd decompression failed (exit code: 2)"
    );
    assert_eq!(
        zstd_result(ZstdRun::Exited { success: false, code: None }).unwrap_err(),
        "zstd decompression failed (exit code: -1)"
    );
}

fn finish_err(a: InstallAction) -> String {
    match a {
        InstallAction::Finish(Err(e)) => e,
        _ => panic!("expected a failure"),
    }
}

#[test]
fn install_steps() {
    assert_eq!(
        finish_err(ensure_binary_step("x86_64", InstallEvent::Located(None))),
        "Cannot determine home directory for Tuwunel binary"
    );
    assert!(matches!(ensure_binary_step("x86_64", InstallEvent::Located(Some(true))), InstallAction::Finish(Ok(()))));
    assert!(matches!(ensure_binary_step("x86_64", InstallEvent::Located(Some(false))), InstallAction::CheckMarker));
    assert_eq!(
        finish_err(ensure_binary_step("x86_64", InstallEvent::MarkerChecked(Some("cached".to_string())))),
        "cached"
    );
    assert!(matches!(ensure_binary_step("x86_64", InstallEvent::MarkerChecked(None)), InstallAction::CreateDir));
    assert_eq!(finish_err(ensure_binary_step("x86_64", InstallEvent::NoParentDir)), "Invalid binary path");
    assert_eq!(
        finish_err(ensure_binary_step(
            "x86_64",
            InstallEvent::DirCreated(Err(("/b".to_string(), "denied".to_string())))
        )),
        "Cannot create /b: denied"
    );
    match ensure_binary_step("aarch64", InstallEvent::DirCreated(Ok(()))) {
        InstallAction::Download(u) => assert!(u.ends_with("v1.5.1-release-all-aarch64-linux-gnu-tuwunel.zst")),
        _ => panic!("expected a download"),
    }
    assert_eq!(
        finish_err(ensure_binary_step("mips", InstallEvent::DirCreated(Ok(())))),
        "Unsupported architecture for Tuwunel: mips"
    );
    match ensure_binary_step("x86_64", InstallEvent::Downloaded(Err("HTTP 404".to_string()))) {
        InstallAction::RecordFailure(e) => assert_eq!(e, "HTTP 404"),
        _ => panic!("expected the failure to be recorded"),
    }
    assert!(matches!(ensure_binary_step("x86_64", InstallEvent::Downloaded(Ok(()))), InstallAction::Decompress));
    assert_eq!(finish_err(ensure_binary_step("x86_64", InstallEvent::Decompressed(Err("bad".to_string())))), "bad");
    assert!(matches!(ensure_binary_step("x86_64", InstallEvent::Decompressed(Ok(()))), InstallAction::Finalize));
    assert_eq!(
        finish_err(ensure_binary_step("x86_64", InstallEvent::Finalized(Err("ro".to_string())))),
        "Cannot set executable permission: ro"
    );
    assert!(matches!(ensure_binary_step("x86_64", InstallEvent::Finalized(Ok(()))), InstallAction::ClearMarker));
}
