use qwanban::inference::routing::RouteResolver;
use qwanban::proto::config::{InferenceConfig, InferenceRoute, RouteTarget};
use qwanban::proto::error::QwanCode;

fn cfg() -> InferenceConfig {
    InferenceConfig {
        lmstudio_url: "http://10.0.75.1:1234/v1".into(),
        routes: vec![
            InferenceRoute { model: "qwen2.5-coder-32b".into(), target: RouteTarget::Lmstudio, base_url: None },
            InferenceRoute {
                model: "gpt-4o".into(),
                target: RouteTarget::Cloud,
                base_url: Some("https://api.openai.com/v1".into()),
            },
        ],
    }
}

#[test]
fn allowed_models_intersects() {
    let r = RouteResolver::new(cfg());
    let allowed = r.allowed_models(&["qwen2.5-coder-32b".into(), "mistral-7b".into()]);
    assert_eq!(allowed, vec!["qwen2.5-coder-32b"]);
}

#[test]
fn resolve_rejects_disallowed_model() {
    let r = RouteResolver::new(cfg());
    let err = r.resolve("gpt-4o", &["qwen2.5-coder-32b".into()]).unwrap_err();
    assert_eq!(err.code(), QwanCode::PermissionDenied);
}

#[test]
fn resolve_lmstudio_returns_direct_url() {
    let r = RouteResolver::new(cfg());
    let route = r.resolve("qwen2.5-coder-32b", &["qwen2.5-coder-32b".into()]).unwrap();
    assert_eq!(route.target, RouteTarget::Lmstudio);
    // points at the host LM Studio, no proxy needed
    assert_eq!(route.base_url, "http://10.0.75.1:1234/v1");
}

#[test]
fn resolve_cloud_returns_cloud_url() {
    let r = RouteResolver::new(cfg());
    let route = r.resolve("gpt-4o", &["gpt-4o".into()]).unwrap();
    assert_eq!(route.target, RouteTarget::Cloud);
    // points at the real cloud URL (the guest reaches it via the proxy)
    assert_eq!(route.base_url, "https://api.openai.com/v1");
}

#[test]
fn resolve_allowed_but_unrouted_model_is_not_found() {
    let r = RouteResolver::new(cfg());
    let err = r.resolve("mistral-7b", &["mistral-7b".into()]).unwrap_err();
    assert_eq!(err.code(), QwanCode::NotFound);
    assert_eq!(err.message(), "no route configured for mistral-7b");
    let err = r.resolve("gpt-4o", &[]).unwrap_err();
    assert_eq!(err.message(), "model gpt-4o not allowed for this case");
}
