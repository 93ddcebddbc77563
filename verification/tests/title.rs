use cordial_runtime::{window_title, VERSION};

#[test]
fn the_title_names_the_version_and_the_backend() {
    assert_eq!(window_title("GLES"), "Cordial 0.1.0 (GLES)");
    assert_eq!(window_title(""), format!("Cordial {VERSION} ()"));
}
