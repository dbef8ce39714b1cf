use dcode::product::codex_product;
use dcode::product::dcode_product;
use dcode::product::product_for_executable;
use dcode::product::product_for_executable_name;
use dcode::product::product_from_environment;

#[test]
fn detects_dcode_release_binary_names() {
    for executable in [
        "dcode",
        "dcode.exe",
        "dcode-aarch64-apple-darwin",
        "dcode-x86_64-pc-windows-msvc.exe",
    ] {
        assert_eq!(product_for_executable(executable), dcode_product());
    }
}

#[test]
fn preserves_codex_for_upstream_and_test_binaries() {
    for executable in ["codex", "codex.exe", "codex_cli-deadbeef", "tui-unit-tests"] {
        assert_eq!(product_for_executable(executable), codex_product());
    }
}

#[test]
fn executable_in_a_directory_is_judged_by_its_file_name() {
    assert_eq!(product_for_executable("/opt/dcode/bin/dcode"), dcode_product());
    assert_eq!(product_for_executable("/opt/dcode/bin/codex"), codex_product());
    assert_eq!(product_for_executable("/usr/local/dcode-tools/codex"), codex_product());
}

#[test]
fn file_stem_rules() {
    assert_eq!(product_for_executable_name(Some("dcode")), dcode_product());
    assert_eq!(product_for_executable_name(Some("dcode-")), dcode_product());
    assert_eq!(product_for_executable_name(Some("dcodex")), codex_product());
    assert_eq!(product_for_executable_name(Some("xdcode")), codex_product());
    assert_eq!(product_for_executable_name(None), codex_product());
}

#[test]
fn distribution_variable_selects_dcode() {
    assert_eq!(product_from_environment(Some("dcode"), Some("/usr/bin/codex")), dcode_product());
    assert_eq!(product_from_environment(Some("codex"), Some("/usr/bin/codex")), codex_product());
    assert_eq!(product_from_environment(Some("other"), Some("/usr/bin/dcode")), dcode_product());
    assert_eq!(product_from_environment(None, None), codex_product());
}

#[test]
fn product_defaults() {
    let d = dcode_product();
    assert_eq!(d.home_env, "DCODE_HOME");
    assert_eq!(d.default_home_dir, ".dcode");
    assert_eq!(d.default_model, Some("deepseek-v4-flash"));
    assert_eq!(d.version, "0.2.1");
    let c = codex_product();
    assert_eq!(c.home_env, "CODEX_HOME");
    assert_eq!(c.default_home_dir, ".codex");
    assert_eq!(c.default_model, None);
}

#[test]
fn absolute_release_paths_and_near_misses() {
    assert_eq!(product_for_executable("/usr/local/bin/dcode"), dcode_product());
    assert_eq!(product_for_executable("/opt/pkg/dcode-linux.exe"), dcode_product());
    assert_eq!(product_for_executable("bin/dcode.exe"), dcode_product());
    assert_eq!(product_for_executable("dcodex"), codex_product());
    assert_eq!(product_for_executable("DCode"), codex_product());
    assert_eq!(product_for_executable(""), codex_product());
}

#[test]
fn installed_and_unusual_paths_follow_the_file_stem() {
    assert_eq!(product_for_executable("/home/u/.dcode/packages/standalone/dcode"), dcode_product());
    assert_eq!(product_for_executable("/home/u/.local/bin/dcode"), dcode_product());
    assert_eq!(product_for_executable("/Users/Jane Doe/bin/dcode"), dcode_product());
    assert_eq!(product_for_executable("/opt/ünïcode/dcode-linux"), dcode_product());
    assert_eq!(product_for_executable("./dcode/"), dcode_product());
    assert_eq!(product_for_executable("bin/./dcode.exe/."), dcode_product());
    assert_eq!(product_for_executable("dcode.tar.gz"), codex_product());
    assert_eq!(product_for_executable("/opt/dcode/.."), codex_product());
    assert_eq!(product_for_executable("/"), codex_product());
    assert_eq!(product_for_executable("."), codex_product());
    assert_eq!(product_for_executable("/home/u/.dcode"), codex_product());
    assert_eq!(product_from_environment(None, Some("/home/u/.dcode/packages/standalone/dcode")), dcode_product());
}
