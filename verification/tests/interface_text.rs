use ayeaye::strings::{lang_from_env, Lang};

#[test]
fn lang_from_env_lang_pt_br_is_portuguese() {
    assert_eq!(lang_from_env(None, None, Some("pt_BR.UTF-8")), Lang::PtBr);
}

#[test]
fn lang_from_env_lang_en_us_is_english() {
    assert_eq!(lang_from_env(None, None, Some("en_US.UTF-8")), Lang::En);
}

#[test]
fn lang_from_env_all_unset_is_english() {
    assert_eq!(lang_from_env(None, None, None), Lang::En);
}

#[test]
fn lang_from_env_lc_all_overrides_a_conflicting_lang() {
    assert_eq!(lang_from_env(Some("en_US.UTF-8"), None, Some("pt_BR.UTF-8")), Lang::En);
}

#[test]
fn lang_from_env_pt_pt_is_still_portuguese() {
    assert_eq!(lang_from_env(None, None, Some("pt_PT.UTF-8")), Lang::PtBr);
}

#[test]
fn frame_x_of_n_in_english() {
    assert_eq!(Lang::En.strings().frame_x_of_n(3, 5), "Frame 3 of 5");
}

#[test]
fn frame_x_of_n_in_portuguese() {
    assert_eq!(Lang::PtBr.strings().frame_x_of_n(3, 5), "Frame 3 de 5");
}

#[test]
fn saved_to_in_english() {
    assert_eq!(Lang::En.strings().saved_to("/tmp/out.gif"), "Saved to: /tmp/out.gif");
}

#[test]
fn saved_to_in_portuguese() {
    assert_eq!(Lang::PtBr.strings().saved_to("/tmp/out.gif"), "Salvo em: /tmp/out.gif");
}

#[test]
fn recording_stopped_early_in_english() {
    assert_eq!(
        Lang::En.strings().recording_stopped_early("disk full"),
        "The recording stopped earlier than expected: disk full"
    );
}

#[test]
fn recording_stopped_early_in_portuguese() {
    assert_eq!(
        Lang::PtBr.strings().recording_stopped_early("disco cheio"),
        "A gravação parou antes do esperado: disco cheio"
    );
}

#[test]
fn export_failed_in_english() {
    assert_eq!(Lang::En.strings().export_failed("timeout"), "Failed to export: timeout");
}

#[test]
fn export_failed_in_portuguese() {
    assert_eq!(Lang::PtBr.strings().export_failed("timeout"), "Falha ao exportar: timeout");
}
