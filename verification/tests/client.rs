use oapitui::client::{fill_text, RequestDef};

fn req(base: &str, path: &str, params: Vec<(&str, &str)>) -> RequestDef {
    RequestDef {
        method: "GET".to_string(),
        base_url: base.to_string(),
        path_template: path.to_string(),
        path_params: params.into_iter().map(|(k, v)| (k.to_string(), v.to_string())).collect(),
        query_params: Vec::new(),
        headers: Vec::new(),
        body: None,
    }
}

#[test]
fn resolved_url_substitutes_placeholders() {
    let r = req("https://api.example.com/v1/", "/pets/{petId}/toys/{toy}", vec![("petId", "42"), ("toy", "ball")]);
    assert_eq!(r.resolved_url(), "https://api.example.com/v1/pets/42/toys/ball");
}

#[test]
fn resolved_url_joins_with_one_slash() {
    assert_eq!(req("http://h", "items", vec![]).resolved_url(), "http://h/items");
    assert_eq!(req("http://h///", "//items", vec![]).resolved_url(), "http://h/items");
    assert_eq!(req("http://h", "/a/{x}/{x}", vec![("x", "1")]).resolved_url(), "http://h/a/1/1");
}

#[test]
fn variables_fill_base_url_params_and_headers() {
    let r = RequestDef {
        method: "GET".to_string(),
        base_url: "https://{{host}}/v1".to_string(),
        path_template: "/pets/{id}".to_string(),
        path_params: vec![("id".to_string(), "{{id}}".to_string())],
        query_params: vec![("q".to_string(), "{{id}}-{{id}}-{{missing}}".to_string())],
        headers: vec![("Authorization".to_string(), "{{token}}".to_string())],
        body: Some("{\"a\": \"{{id}}\"}".to_string()),
    };
    let vars = vec![
        ("host".to_string(), "api.example.com".to_string()),
        ("id".to_string(), "7".to_string()),
        ("token".to_string(), "Bearer t".to_string()),
    ];
    let f = r.with_vars(&vars);
    assert_eq!(f.resolved_url(), "https://api.example.com/v1/pets/7");
    assert_eq!(f.query_params, vec![("q".to_string(), "7-7-{{missing}}".to_string())]);
    assert_eq!(f.headers, vec![("Authorization".to_string(), "Bearer t".to_string())]);
    assert_eq!(f.body, r.body, "the body is sent as written");
    assert_eq!(fill_text("{{host}}", &vec![]), "{{host}}");
}
