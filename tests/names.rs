use xc_fetch::names::{
    attribution, audio_extension, audio_filename, base_name, metadata_filename, record_url,
    sanitize_filename, species,
};

#[test]
fn reserved_characters_become_underscores() {
    assert_eq!(sanitize_filename("a<b>c:d\"e/f\\g|h?i*j"), "a_b_c_d_e_f_g_h_i_j");
    assert_eq!(sanitize_filename("Eurasian Wren"), "Eurasian Wren");
    assert_eq!(sanitize_filename(""), "");
    assert_eq!(sanitize_filename("é/ü"), "é_ü");
}

#[test]
fn sanitizing_is_deterministic_and_may_collide() {
    assert_eq!(sanitize_filename("x?y"), sanitize_filename("x?y"));
    assert_eq!(sanitize_filename("x?y"), sanitize_filename("x*y"));
}

#[test]
fn base_name_of_a_wren() {
    assert_eq!(
        base_name(928094, "Eurasian Wren", "Troglodytes", "troglodytes"),
        "XC928094 - Eurasian Wren - Troglodytes troglodytes"
    );
    assert_eq!(base_name(5, "Owl/Hawk", "A", "b?"), "XC5 - Owl_Hawk - A b_");
}

#[test]
fn attribution_and_url() {
    assert_eq!(
        attribution("J. Doe", 928094),
        "J. Doe, XC928094. Accessible at www.xeno-canto.org/928094"
    );
    assert_eq!(record_url(928094), "https://www.xeno-canto.org/928094");
    assert_eq!(record_url(0), "https://www.xeno-canto.org/0");
}

#[test]
fn file_names() {
    assert_eq!(metadata_filename("XC1 - a - b c"), "XC1 - a - b c.xc.json");
    assert_eq!(audio_filename("XC1 - a - b c", "mp3"), "XC1 - a - b c.mp3");
    assert_eq!(species("Troglodytes", "troglodytes"), "Troglodytes troglodytes");
}

#[test]
fn extension_from_announced_name() {
    assert_eq!(audio_extension(Some("XC928094-wren.mp3")), "mp3");
    assert_eq!(audio_extension(Some("a.b.flac")), "flac");
    assert_eq!(audio_extension(Some("noext")), "wav");
    assert_eq!(audio_extension(Some("trailing.")), "");
    assert_eq!(audio_extension(None), "wav");
}
