use dpilot::recipe::{Recipe, StepSpec};
use dpilot::registry::{GithubContentItem, RecipeRegistry, RecipeSource, RecipeSummary, ResolveError, ResolveRoute};

fn summary(name: &str, category: &str) -> RecipeSummary {
    RecipeSummary {
        name: name.to_string(),
        version: "1.0.0".to_string(),
        description: format!("{} description", name),
        category: category.to_string(),
        source: RecipeSource::Remote(format!("https://example.com/{}.yaml", name)),
    }
}

fn bare_recipe(name: &str, category: &str) -> Recipe {
    Recipe {
        name: name.to_string(),
        version: "2.0.0".to_string(),
        description: "d".to_string(),
        category: category.to_string(),
        author: None,
        platforms: None,
        inputs: Vec::new(),
        steps: vec![StepSpec {
            name: "s".to_string(),
            command: "echo hi".to_string(),
            working_dir: None,
            env: None,
            allow_failure: Some(false),
            show_output: Some(true),
            platforms: None,
        }],
    }
}

#[test]
fn test_parse_embedded_recipes() {
    let list = RecipeRegistry::list_available(None, RecipeRegistry::embedded_recipes());
    assert!(!list.is_empty(), "Embedded recipes should not be empty");
    let names: Vec<String> = list.into_iter().map(|r| r.name).collect();
    assert!(names.contains(&"nginx".to_string()));
    assert!(names.contains(&"redis".to_string()));
    assert!(names.contains(&"postgres".to_string()));
    assert!(names.contains(&"uptime-kuma".to_string()));
    assert!(names.contains(&"install-docker".to_string()));
}

#[test]
fn embedded_listing_is_sorted_and_points_at_raw_urls() {
    let list = RecipeRegistry::list_available(Some(Vec::new()), RecipeRegistry::embedded_recipes());
    let names: Vec<&str> = list.iter().map(|r| r.name.as_str()).collect();
    assert_eq!(names, vec!["install-docker", "nginx", "postgres", "redis", "uptime-kuma"]);
    match &list[2].source {
        RecipeSource::Remote(u) => assert_eq!(
            u,
            "https://raw.githubusercontent.com/yunhai-dev/dpilot/main/recipes/postgres.yaml"
        ),
        RecipeSource::Local(_) => panic!("expected a remote source"),
    }
    assert_eq!(list[0].category, "system");
}

#[test]
fn remote_listing_wins_when_not_empty() {
    let remote = vec![summary("zeta", "service")];
    let list = RecipeRegistry::list_available(Some(remote), RecipeRegistry::embedded_recipes());
    assert_eq!(list.len(), 1);
    assert_eq!(list[0].name, "zeta");
}

#[test]
fn sort_by_name_is_stable() {
    let mut a = summary("b", "service");
    a.version = "first".to_string();
    let mut b = summary("b", "service");
    b.version = "second".to_string();
    let sorted = RecipeRegistry::sort_by_name(vec![summary("c", "x"), a, summary("a", "x"), b, summary("B", "x")]);
    let keys: Vec<(String, String)> = sorted.iter().map(|s| (s.name.clone(), s.version.clone())).collect();
    assert_eq!(
        keys,
        vec![
            ("B".to_string(), "1.0.0".to_string()),
            ("a".to_string(), "1.0.0".to_string()),
            ("b".to_string(), "first".to_string()),
            ("b".to_string(), "second".to_string()),
            ("c".to_string(), "1.0.0".to_string()),
        ]
    );
}

#[test]
fn remote_summaries_are_sorted_with_their_urls() {
    let fetched = vec![
        ("u-z".to_string(), Some(bare_recipe("zz", "service"))),
        ("u-bad".to_string(), None),
        ("u-a".to_string(), Some(bare_recipe("aa", "system"))),
    ];
    let list = RecipeRegistry::remote_summaries(fetched);
    assert_eq!(list[0].name, "aa");
    assert_eq!(list[0].version, "2.0.0");
    match &list[0].source {
        RecipeSource::Remote(u) => assert_eq!(u, "u-a"),
        RecipeSource::Local(_) => panic!("expected a remote source"),
    }
    assert_eq!(list[1].name, "zz");
    assert_eq!(list.len(), 2);
}

#[test]
fn category_filter_ignores_ascii_case() {
    let list = vec![summary("a", "service"), summary("b", "System"), summary("c", "system")];
    let kept = RecipeRegistry::filter_by_category(list.clone(), Some("SYSTEM"));
    let names: Vec<&str> = kept.iter().map(|s| s.name.as_str()).collect();
    assert_eq!(names, vec!["b", "c"]);
    let all = RecipeRegistry::filter_by_category(list, None);
    assert_eq!(all.len(), 3);
}

#[test]
fn directory_listing_keeps_yaml_files() {
    let items = vec![
        GithubContentItem { name: "nginx.yaml".to_string(), download_url: Some("https://dl/nginx.yaml".to_string()) },
        GithubContentItem { name: "README.md".to_string(), download_url: Some("https://dl/README.md".to_string()) },
        GithubContentItem { name: "redis.yml".to_string(), download_url: None },
    ];
    let urls = RecipeRegistry::remote_recipe_urls(&items);
    assert_eq!(
        urls,
        vec![
            "https://dl/nginx.yaml".to_string(),
            "https://raw.githubusercontent.com/yunhai-dev/dpilot/main/recipes/redis.yml".to_string(),
        ]
    );
}

#[test]
fn clean_name_strips_yaml_endings() {
    assert_eq!(RecipeRegistry::clean_name("postgres.yaml"), "postgres");
    assert_eq!(RecipeRegistry::clean_name("redis.yml"), "redis");
    assert_eq!(RecipeRegistry::clean_name("a.yml.yaml"), "a");
    assert_eq!(RecipeRegistry::clean_name("a.yaml.yaml"), "a");
    assert_eq!(RecipeRegistry::clean_name("nginx"), "nginx");
}

#[test]
fn routes_follow_the_precedence() {
    match RecipeRegistry::route("nginx", Some("/tmp/x.yaml".to_string()), true) {
        ResolveRoute::LocalFile { path } => assert_eq!(path, "/tmp/x.yaml"),
        other => panic!("unexpected route {:?}", other),
    }
    match RecipeRegistry::route("./mine.yaml", None, true) {
        ResolveRoute::LocalFile { path } => assert_eq!(path, "./mine.yaml"),
        other => panic!("unexpected route {:?}", other),
    }
    match RecipeRegistry::route("https://example.com/r.yaml", None, false) {
        ResolveRoute::RemoteUrl { url } => assert_eq!(url, "https://example.com/r.yaml"),
        other => panic!("unexpected route {:?}", other),
    }
    match RecipeRegistry::route("postgres.yml", None, false) {
        ResolveRoute::Registry { name, url } => {
            assert_eq!(name, "postgres");
            assert_eq!(url, "https://raw.githubusercontent.com/yunhai-dev/dpilot/main/recipes/postgres.yaml");
        }
        other => panic!("unexpected route {:?}", other),
    }
}

#[test]
fn offline_registry_falls_back_to_builtin() {
    let route = RecipeRegistry::route("redis", None, false);
    let (recipe, source) = RecipeRegistry::resolve(route, "redis", Err("offline".to_string()), RecipeRegistry::embedded_recipes()).unwrap();
    assert_eq!(recipe.name, "redis");
    let builtin = RecipeRegistry::embedded_recipe("redis.yaml").unwrap();
    assert_eq!(recipe.steps.len(), builtin.steps.len());
    assert_eq!(recipe.steps[2].command, builtin.steps[2].command);
    assert_eq!(recipe.inputs.len(), builtin.inputs.len());
    match source {
        RecipeSource::Remote(label) => assert_eq!(label, "embedded:redis"),
        RecipeSource::Local(_) => panic!("expected the embedded label"),
    }
}

#[test]
fn fetched_registry_recipe_keeps_its_url() {
    let route = RecipeRegistry::route("custom", None, false);
    let (recipe, source) = RecipeRegistry::resolve(route, "custom", Ok(bare_recipe("custom", "service")), RecipeRegistry::embedded_recipes()).unwrap();
    assert_eq!(recipe.name, "custom");
    match source {
        RecipeSource::Remote(u) => {
            assert_eq!(u, "https://raw.githubusercontent.com/yunhai-dev/dpilot/main/recipes/custom.yaml")
        }
        RecipeSource::Local(_) => panic!("expected a remote source"),
    }
}

#[test]
fn unknown_recipe_is_not_found() {
    let route = RecipeRegistry::route("nosuch", None, false);
    let err = RecipeRegistry::resolve(route, "nosuch", Err("offline".to_string()), RecipeRegistry::embedded_recipes()).unwrap_err();
    match &err {
        ResolveError::NotFound { identifier, url } => {
            assert_eq!(identifier, "nosuch");
            assert_eq!(url, "https://raw.githubusercontent.com/yunhai-dev/dpilot/main/recipes/nosuch.yaml");
        }
        other => panic!("unexpected error {:?}", other),
    }
    assert_eq!(
        err.message(),
        "Recipe 'nosuch' not found on GitHub (https://raw.githubusercontent.com/yunhai-dev/dpilot/main/recipes/nosuch.yaml) or embedded registry."
    );
}

#[test]
fn local_file_load_error_is_reported() {
    let route = RecipeRegistry::route("", Some("/nope.yaml".to_string()), false);
    let err = RecipeRegistry::resolve(route, "", Err("Failed to read recipe file at \"/nope.yaml\"".to_string()), RecipeRegistry::embedded_recipes()).unwrap_err();
    match err {
        ResolveError::Load { message } => assert!(message.contains("/nope.yaml")),
        other => panic!("unexpected error {:?}", other),
    }
    let route = RecipeRegistry::route("", Some("/ok.yaml".to_string()), false);
    let (_, source) = RecipeRegistry::resolve(route, "", Ok(bare_recipe("ok", "service")), RecipeRegistry::embedded_recipes()).unwrap();
    match source {
        RecipeSource::Local(p) => assert_eq!(p, "/ok.yaml"),
        RecipeSource::Remote(_) => panic!("expected a local source"),
    }
}

#[test]
fn embedded_lookup_by_file_name() {
    assert_eq!(RecipeRegistry::embedded_recipe("uptime-kuma.yaml").unwrap().name, "uptime-kuma");
    assert!(RecipeRegistry::embedded_recipe("uptime-kuma").is_none());
    assert!(RecipeRegistry::embedded_recipe("missing.yaml").is_none());
}

#[test]
fn contents_api_url_is_the_recipe_directory() {
    assert_eq!(
        RecipeRegistry::contents_api_url(),
        "https://api.github.com/repos/yunhai-dev/dpilot/contents/recipes?ref=main"
    );
}

#[test]
fn yaml_endings_route_alike() {
    let keys: Vec<(String, String)> = ["nginx", "nginx.yaml", "nginx.yml"]
        .iter()
        .map(|id| match RecipeRegistry::route(id, None, false) {
            ResolveRoute::Registry { name, url } => (name, url),
            other => panic!("unexpected route {:?}", other),
        })
        .collect();
    assert_eq!(keys[0], keys[1]);
    assert_eq!(keys[0], keys[2]);
}

#[test]
fn find_named_takes_the_first_match() {
    let mut second = bare_recipe("dup", "system");
    second.version = "9".to_string();
    let found = RecipeRegistry::find_named(vec![bare_recipe("x", "s"), bare_recipe("dup", "service"), second], "dup").unwrap();
    assert_eq!(found.category, "service");
    assert!(RecipeRegistry::find_named(Vec::new(), "dup").is_none());
}

#[test]
fn builtin_recipes_have_their_steps() {
    let all = RecipeRegistry::embedded_recipes();
    let nginx = &all[1];
    assert_eq!(nginx.inputs.len(), 3);
    assert_eq!(nginx.steps[0].command, "docker pull nginx:latest");
    assert_eq!(all[0].platforms.as_deref(), Some(&["linux".to_string()][..]));
}
