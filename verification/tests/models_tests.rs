use nsay::models::{catalog, find};
use nsay::models_cmd::{
    choose_models_dir, content_length, download_model, download_progress, ensure_model,
    digest_verdict, list_models, lookup_model, models_dir_from, DigestVerdict, resolve_models_dir, EnsureStep, ModelState, ModelsDirChoice,
};

fn state(dir: &str, in_flight: &[&str]) -> ModelState {
    ModelState {
        models_dir: dir.to_string(),
        in_flight: in_flight.iter().map(|s| s.to_string()).collect(),
    }
}

#[test]
fn catalogue_lookup() {
    let e = find("real-esrgan-x2").unwrap();
    assert_eq!(e.family, "upscale");
    assert_eq!(e.filename, "real-esrgan-x2.onnx");
    assert_eq!(e.output_scale, 2);
    assert_eq!(find("rife-4.9").unwrap().family, "interp");
    assert!(find("nope").is_none());
    assert_eq!(catalog().len(), 20);
    assert_eq!(catalog()[0].id, "bria-rmbg-1.4");
}

#[test]
fn models_dir_precedence() {
    assert!(matches!(
        choose_models_dir(Some("/env".to_string()), true, None),
        ModelsDirChoice::Env(e) if e == "/env"
    ));
    assert!(matches!(choose_models_dir(None, true, Some("/d".to_string())), ModelsDirChoice::Configured));
    assert!(matches!(
        choose_models_dir(None, false, None),
        ModelsDirChoice::UnderData { base } if base == "."
    ));
    let s = state("models", &[]);
    assert_eq!(resolve_models_dir(Some("/override".to_string()), &s, None), "/override");
    assert_eq!(
        resolve_models_dir(None, &s, Some("/home/u/.local/share".to_string())),
        "/home/u/.local/share/nsay/models"
    );
    assert_eq!(resolve_models_dir(None, &state("/abs/models", &[]), None), "/abs/models");
}

#[test]
fn list_models_marks_installed_and_downloading() {
    let n = catalog().len();
    let mut installed = vec![false; n];
    installed[1] = true;
    let infos = list_models("/m", &vec!["ben2-base".to_string()], &installed);
    assert_eq!(infos.len(), n);
    assert_eq!(infos[1].id, "bria-rmbg-1.4-fp16");
    assert!(infos[1].installed);
    assert_eq!(infos[1].local_path.as_deref(), Some("/m/bria-rmbg-1.4-fp16.onnx"));
    assert!(!infos[0].installed);
    assert!(infos[0].local_path.is_none());
    assert!(infos[2].downloading);
    assert!(!infos[3].downloading);
    assert_eq!(infos[6].output_scale, 2);
    assert_eq!(infos[0].size_mb, 176);
}

#[test]
fn unknown_model_message() {
    match lookup_model("zzz") {
        Err(m) => assert_eq!(m, "unknown model id: zzz"),
        Ok(_) => panic!("unknown id accepted"),
    }
    assert!(lookup_model("span-x4").is_ok());
}

#[test]
fn begin_then_end_restores_in_flight() {
    let mut s = state("models", &["a"]);
    assert!(s.begin_download("b"));
    assert!(s.in_flight.contains(&"b".to_string()));
    assert!(!s.begin_download("b"));
    s.end_download("b");
    assert_eq!(s.in_flight, vec!["a".to_string()]);
    assert!(!s.in_flight.contains(&"b".to_string()));
}

#[test]
fn end_download_forgets_every_mark() {
    let mut s = state("models", &["x", "y", "x"]);
    s.end_download("x");
    assert_eq!(s.in_flight, vec!["y".to_string()]);
}

#[test]
fn ensure_model_decisions() {
    let mut s = state("models", &[]);
    assert!(matches!(ensure_model(&mut s, "span-x4", true), Ok(EnsureStep::Present(e)) if e.id == "span-x4"));
    assert!(s.in_flight.is_empty());
    assert!(matches!(ensure_model(&mut s, "span-x4", false), Ok(EnsureStep::Download(e)) if e.id == "span-x4"));
    assert_eq!(s.in_flight, vec!["span-x4".to_string()]);
    match ensure_model(&mut s, "span-x4", false) {
        Err(m) => assert_eq!(m, "model span-x4 is already downloading"),
        Ok(_) => panic!("second download accepted"),
    }
    match ensure_model(&mut s, "what", false) {
        Err(m) => assert_eq!(m, "unknown model id: what"),
        Ok(_) => panic!("unknown id accepted"),
    }
}

#[test]
fn download_button_decisions() {
    let mut s = state("models", &["rife-4.9"]);
    match download_model(&mut s, "rife-4.9", false) {
        Err(m) => assert_eq!(m, "already downloading"),
        Ok(_) => panic!("second download accepted"),
    }
    assert!(matches!(download_model(&mut s, "rife-4.9", true), Ok(EnsureStep::Present(_))));
    assert!(matches!(download_model(&mut s, "lsdir-x4", false), Ok(EnsureStep::Download(_))));
    assert_eq!(s.in_flight.len(), 2);
}

#[test]
fn content_length_header() {
    assert_eq!(content_length(Some("1048576".to_string())), 1048576);
    assert_eq!(content_length(Some("abc".to_string())), 0);
    assert_eq!(content_length(None), 0);
}

#[test]
fn download_progress_reports_changes_only() {
    assert_eq!(download_progress(50, 200, 0), Some(25));
    assert_eq!(download_progress(50, 200, 25), None);
    assert_eq!(download_progress(10, 0, 0), None);
    // More bytes than announced wrap the byte-sized percentage.
    assert_eq!(download_progress(600, 200, 0), Some(44));
}

#[test]
fn models_dir_from_follows_precedence() {
    assert_eq!(models_dir_from(Some("/o".to_string()), true, "m", None), "/o");
    assert_eq!(models_dir_from(None, true, "/abs", Some("/d".to_string())), "/abs");
    assert_eq!(models_dir_from(None, false, "models", Some("/d".to_string())), "/d/nsay/models");
    assert_eq!(models_dir_from(None, false, "models", None), "./nsay/models");
}

#[test]
fn digest_verdicts() {
    assert!(matches!(digest_verdict("", None), DigestVerdict::Unchecked));
    assert!(matches!(digest_verdict("", Some("ab")), DigestVerdict::Unchecked));
    assert!(matches!(digest_verdict("ab12", Some("AB12")), DigestVerdict::Matches));
    assert!(matches!(digest_verdict("ab12", Some("ab13")), DigestVerdict::Mismatch));
    assert!(matches!(digest_verdict("ab12", None), DigestVerdict::Unverifiable));
}

#[test]
fn listed_families_and_ratios() {
    let installed = vec![false; catalog().len()];
    for m in list_models("/m", &vec![], &installed) {
        if m.family == "vidsr" {
            assert_eq!(m.output_scale, 4);
            continue;
        }
        assert!(["rembg", "upscale", "interp"].contains(&m.family.as_str()));
        if m.family == "upscale" {
            assert!(m.output_scale == 2 || m.output_scale == 4, "{}", m.id);
        } else {
            assert_eq!(m.output_scale, 0);
        }
    }
}
