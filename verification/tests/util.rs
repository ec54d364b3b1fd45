use reforge::manager::RegistrySource;
use reforge::util::glob_match;
use reforge::util::manager_name;
use reforge::util::parse_image_reference;

#[test]
fn glob_examples() {
    assert!(glob_match("*.yaml", "values.yaml"));
    assert!(glob_match("apps/**/*.yaml", "apps/web/config.yaml"));
    assert!(!glob_match("*.yaml", "subdir/values.yaml"));
    assert!(glob_match("**", ""));
    assert!(!glob_match("", "x"));
}

#[test]
fn image_reference_examples() {
    assert_eq!(parse_image_reference("nginx"), (None, "nginx".to_string()));
    assert_eq!(parse_image_reference("ghcr.io/owner/app"), (Some("ghcr.io/owner".to_string()), "app".to_string()));
    assert_eq!(parse_image_reference("library/nginx"), (None, "library/nginx".to_string()));
    assert_eq!(parse_image_reference("localhost:5000/app"), (Some("localhost:5000".to_string()), "app".to_string()));
}

#[test]
fn image_reference_roundtrip_on_values() {
    for image in ["nginx", "ghcr.io/owner/app", "library/nginx", "r.io:5000/a/b/c"] {
        match parse_image_reference(image) {
            (Some(registry), name) => assert_eq!(format!("{}/{}", registry, name), image),
            (None, name) => assert_eq!(name, image),
        }
    }
}

#[test]
fn manager_names() {
    assert_eq!(manager_name(&RegistrySource::DockerRegistry { image: "a".to_string(), registry: None }), "docker");
    assert_eq!(manager_name(&RegistrySource::OciHelmRegistry { image: "a".to_string(), registry: None }), "helm");
}

#[test]
fn single_star_does_not_cross_slash() {
    assert!(glob_match("*", "nginx"));
    assert!(!glob_match("*", "a/b"));
    assert!(glob_match("**", "a/b"));
}
