use gpgui::recognizer::{extract, AuthArtifact, Navigation, RedirectRecognizer, SamlBinding};

fn recognizer() -> RedirectRecognizer {
    RedirectRecognizer::new(b"https://service/callback".to_vec(), b"artifact".to_vec())
}

fn visit(url: &str) -> Navigation {
    Navigation { url: url.as_bytes().to_vec(), body: Vec::new() }
}

fn posted(url: &str, body: &str) -> Navigation {
    Navigation { url: url.as_bytes().to_vec(), body: body.as_bytes().to_vec() }
}

fn found(text: &str) -> Option<AuthArtifact> {
    Some(AuthArtifact { value: text.as_bytes().to_vec() })
}

#[test]
fn callback_with_artifact_is_terminal() {
    let r = recognizer();
    let nav = visit("https://service/callback?artifact=XYZ");
    assert_eq!(r.is_terminal(SamlBinding::Redirect, &nav), found("XYZ"));
}

#[test]
fn artifact_among_other_parameters_and_in_fragment() {
    let r = recognizer();
    assert_eq!(
        r.is_terminal(SamlBinding::Redirect, &visit("https://service/callback?a=1&artifact=X-1_.~%2B&b=2")),
        found("X-1_.~%2B")
    );
    assert_eq!(
        r.is_terminal(SamlBinding::Redirect, &visit("https://service/callback#artifact=abc")),
        found("abc")
    );
    assert_eq!(
        r.is_terminal(SamlBinding::Redirect, &visit("https://service/callback?x=1#artifact=abc")),
        found("abc")
    );
}

#[test]
fn other_addresses_are_not_terminal() {
    let r = recognizer();
    for url in [
        "https://idp.example.com/login?artifact=XYZ",
        "https://service/callback/more?artifact=XYZ",
        "https://service/callbacks?artifact=XYZ",
        "https://service/callbac",
        "http://service/callback?artifact=XYZ",
        "",
    ] {
        assert_eq!(r.is_terminal(SamlBinding::Redirect, &visit(url)), None);
        assert_eq!(r.is_terminal(SamlBinding::Post, &posted(url, "artifact=XYZ")), None);
        assert!(!r.matches_callback(url.as_bytes()));
    }
}

#[test]
fn malformed_or_ambiguous_candidates_are_not_terminal() {
    let r = recognizer();
    for url in [
        "https://service/callback",
        "https://service/callback?",
        "https://service/callback?artifact=",
        "https://service/callback?artifact",
        "https://service/callback?artifact=a b",
        "https://service/callback?artifact=a=b",
        "https://service/callback?artifact=a&artifact=b",
        "https://service/callback?artifact=a#artifact=a",
        "https://service/callback?xartifact=abc",
        "https://service/callback?artifactx=abc",
        "https://service/callback?x=artifact=abc",
    ] {
        assert_eq!(r.is_terminal(SamlBinding::Redirect, &visit(url)), None);
        assert!(r.matches_callback(url.as_bytes()));
    }
}

#[test]
fn post_binding_reads_the_body() {
    let r = recognizer();
    let nav = posted("https://service/callback", "user=u&artifact=XYZ");
    assert_eq!(r.is_terminal(SamlBinding::Post, &nav), found("XYZ"));
    assert_eq!(r.is_terminal(SamlBinding::Redirect, &nav), None);
    let in_url = posted("https://service/callback?artifact=XYZ", "user=u");
    assert_eq!(r.is_terminal(SamlBinding::Post, &in_url), None);
    assert_eq!(r.is_terminal(SamlBinding::Redirect, &in_url), found("XYZ"));
}

#[test]
fn extract_takes_the_sole_pair() {
    assert_eq!(extract(b"artifact=XYZ", b"artifact"), Some(b"XYZ".to_vec()));
    assert_eq!(extract(b"a=1&k=v2&b=3", b"k"), Some(b"v2".to_vec()));
    assert_eq!(extract(b"a=1&k=v2?b=3", b"b"), Some(b"3".to_vec()));
    assert_eq!(extract(b"k=1&k=1", b"k"), None);
    assert_eq!(extract(b"", b"k"), None);
    assert_eq!(extract(b"k", b"k"), None);
    assert_eq!(extract(b"k=", b"k"), None);
    assert_eq!(extract(b"k=<x>", b"k"), None);
    assert_eq!(extract(b"=v", b""), Some(b"v".to_vec()));
}
