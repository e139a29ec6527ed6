use nsay::config::{with_backend_choice, BackendCfg, Config, ModelsCfg, ToolCfg, UiCfg};
use nsay::state_cmd::{get_backend_state, set_backend_choice, valid_choice, AppState};

fn app(choice: &str) -> AppState {
    AppState { backend_choice: choice.to_string(), available_backends: vec!["cpu".to_string()] }
}

#[test]
fn set_then_get_returns_choice() {
    let mut s = app("auto");
    assert!(set_backend_choice(&mut s, "cuda").is_ok());
    let present = vec!["nsay-rembg-cuda".to_string()];
    let st = get_backend_state(&s, &present, false);
    assert_eq!(st.choice, "cuda");
    assert_eq!(st.available, vec!["cuda".to_string()]);
    assert_eq!(s.available_backends, vec!["cpu".to_string()]);
}

#[test]
fn unknown_backend_is_refused() {
    let mut s = app("dml");
    match set_backend_choice(&mut s, "tpu") {
        Err(m) => assert_eq!(m, "unknown backend: tpu"),
        Ok(()) => panic!("accepted an unknown backend"),
    }
    assert_eq!(s.backend_choice, "dml");
}

#[test]
fn docker_is_a_valid_explicit_choice() {
    assert!(valid_choice("docker"));
    assert!(valid_choice("auto"));
    assert!(valid_choice("coreml"));
    assert!(!valid_choice("Docker"));
    assert!(!valid_choice(""));
}

#[test]
fn first_run_defaults() {
    let c = Config::default_with_files();
    assert_eq!(c.backend.choice, "auto");
    assert_eq!(c.models.dir, "models");
    assert_eq!(c.rembg.model, "bria-rmbg-1.4");
    assert_eq!(c.upscale.model, "real-esrgan-x4plus");
    assert_eq!(c.interp.model, "");
    assert_eq!(c.ui.theme, "system");
    let d = Config::default();
    assert_eq!(d.upscale.model, "real-esrgan-x4plus");
}

#[test]
fn section_defaults() {
    assert_eq!(BackendCfg::default().choice, "auto");
    assert_eq!(ModelsCfg::default().dir, "models");
    assert_eq!(ToolCfg::default().model, "");
    assert_eq!(UiCfg::default().theme, "system");
}

#[test]
fn backend_choice_written_into_empty_file() {
    assert_eq!(with_backend_choice("", "cuda"), "[backend]\nchoice = \"cuda\"\n");
}

#[test]
fn backend_choice_keeps_comments_and_other_sections() {
    let raw = "# my settings\n[backend]\nchoice = \"auto\"\n\n[ui]\ntheme = \"dark\" # keep me\n";
    let out = with_backend_choice(raw, "dml");
    assert!(out.contains("# my settings"));
    assert!(out.contains("choice = \"dml\""));
    assert!(!out.contains("\"auto\""));
    assert!(out.contains("theme = \"dark\" # keep me"));
}

#[test]
fn backend_choice_added_as_new_section() {
    let out = with_backend_choice("[ui]\ntheme = \"light\"\n", "cpu");
    assert!(out.contains("[ui]\ntheme = \"light\"\n"));
    assert!(out.contains("[backend]\nchoice = \"cpu\"\n"));
}

#[test]
fn backend_key_that_is_not_a_table_is_left_alone() {
    assert_eq!(with_backend_choice("backend = 5\n", "cuda"), "backend = 5\n");
}

#[test]
fn unparsable_file_starts_over() {
    assert_eq!(with_backend_choice("[[[ not toml", "cpu"), "[backend]\nchoice = \"cpu\"\n");
}
