use okto::general::{apod_body, apod_explanation};

#[test]
fn apod_body_drops_the_trailer_and_trims() {
    assert_eq!(apod_body("  A comet passes.  Follow APOD on: Instagram"), "A comet passes.");
    assert_eq!(apod_body("Stars digg_url=abc"), "Stars");
    assert_eq!(apod_body("plain"), "plain");
}

#[test]
fn apod_explanation_without_text() {
    assert_eq!(apod_explanation(None), "no explanation provided :(");
    assert_eq!(apod_explanation(Some("Short one. Follow APOD on: x")), "Short one.");
}
