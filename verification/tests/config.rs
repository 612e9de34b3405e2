use oapitui::config::{Config, ServerEntry, ThemeConfig, TlsConfig};

fn server(name: &str, url: &str) -> ServerEntry {
    ServerEntry {
        name: name.to_string(),
        url: url.to_string(),
        description: String::new(),
        default_headers: Vec::new(),
        tls: TlsConfig::default(),
    }
}

fn names(c: &Config) -> Vec<String> {
    c.servers.iter().map(|s| s.name.clone()).collect()
}

#[test]
fn add_server_appends() {
    let mut c = Config::default();
    c.add_server(server("a", "http://a"));
    c.add_server(server("b", "http://b"));
    assert_eq!(names(&c), vec!["a", "b"]);
}

#[test]
fn add_server_replaces_same_name_and_moves_it_last() {
    let mut c = Config { servers: vec![server("a", "http://a"), server("b", "http://b")], theme: ThemeConfig::default(), environments: vec![] };
    c.add_server(server("a", "http://new"));
    assert_eq!(names(&c), vec!["b", "a"]);
    assert_eq!(c.servers[1].url, "http://new");
    assert_eq!(c.servers.iter().filter(|s| s.name == "a").count(), 1);
}

#[test]
fn remove_server_drops_every_match() {
    let mut c = Config {
        servers: vec![server("a", "1"), server("b", "2"), server("a", "3"), server("c", "4")],
        theme: ThemeConfig::default(),
        environments: vec![],
    };
    c.remove_server("a");
    assert_eq!(names(&c), vec!["b", "c"]);
    c.remove_server("zzz");
    assert_eq!(names(&c), vec!["b", "c"]);
}
