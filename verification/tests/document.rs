use vpsguard::config::{Config, Policy};
use vpsguard::document::{recipe_of, resolve_tree, TomlLeaf};
use vpsguard::merge::Tree;

fn get<'a>(t: &'a Tree<TomlLeaf>, path: &[&str]) -> Option<&'a Tree<TomlLeaf>> {
    let mut cur = t;
    for k in path {
        match cur {
            Tree::Table(es) => cur = &es.iter().find(|(n, _)| n == k)?.1,
            Tree::Leaf(_) => return None,
        }
    }
    Some(cur)
}

fn value<'a>(t: &'a Tree<TomlLeaf>, path: &[&str]) -> Option<&'a toml::Value> {
    match get(t, path) {
        Some(Tree::Leaf(TomlLeaf::Other(v))) => Some(v),
        _ => None,
    }
}

fn text<'a>(t: &'a Tree<TomlLeaf>, path: &[&str]) -> Option<&'a str> {
    match get(t, path) {
        Some(Tree::Leaf(TomlLeaf::Text(s))) => Some(s.as_str()),
        _ => None,
    }
}

fn strings(items: &[&str]) -> toml::Value {
    toml::Value::Array(items.iter().map(|s| toml::Value::String(s.to_string())).collect())
}

#[test]
fn recipe_presets_apply() {
    let t = resolve_tree("recipe = \"web-server\"").unwrap();
    assert_eq!(value(&t, &["firewall", "allow"]), Some(&strings(&["80/tcp", "443/tcp"])));
}

#[test]
fn docker_host_recipe_enables_docker() {
    let t = resolve_tree("recipe = \"docker-host\"").unwrap();
    assert_eq!(value(&t, &["docker", "enabled"]), Some(&toml::Value::Boolean(true)));
}

#[test]
fn user_keys_override_recipe() {
    let raw = "recipe = \"web-server\"\n[firewall]\nallow = [\"8080/tcp\"]\n";
    let t = resolve_tree(raw).unwrap();
    // The user's list replaces the recipe's; keys the user leaves out keep their defaults.
    assert_eq!(value(&t, &["firewall", "allow"]), Some(&strings(&["8080/tcp"])));
    assert!(get(&t, &["firewall", "default"]).is_none());
    assert_eq!(Config::default().firewall.default, Policy::Deny);
    assert_eq!(text(&t, &["profile"]), Some("balanced"));
}

#[test]
fn user_scalars_override_but_siblings_kept() {
    let raw = "recipe = \"web-server\"\n[ssh]\nport = 2222\n";
    let t = resolve_tree(raw).unwrap();
    assert_eq!(value(&t, &["ssh", "port"]), Some(&toml::Value::Integer(2222)));
    assert_eq!(value(&t, &["firewall", "allow"]), Some(&strings(&["80/tcp", "443/tcp"])));
}

#[test]
fn unknown_recipe_errors() {
    let err = resolve_tree("recipe = \"nope\"").unwrap_err();
    assert!(err.message().contains("unknown recipe"));
}

#[test]
fn resolve_without_recipe_matches_from_toml() {
    let t = resolve_tree("[ssh]\nport = 22\n").unwrap();
    assert_eq!(value(&t, &["ssh", "port"]), Some(&toml::Value::Integer(22)));
    assert!(get(&t, &["recipe"]).is_none());
    assert!(recipe_of(&t).is_none());
}

#[test]
fn text_that_does_not_parse_is_a_config_error() {
    let err = resolve_tree("[ssh\nport = 22\n").unwrap_err();
    assert!(matches!(err, vpsguard::types::Error::Config(_)));
}

#[test]
fn a_recipe_that_is_not_a_string_names_none() {
    let t = resolve_tree("recipe = 3\n").unwrap();
    assert!(recipe_of(&t).is_none());
    assert_eq!(recipe_of(&resolve_tree("recipe = \"baseline\"\nx = 1\n").unwrap()).as_deref(), Some("baseline"));
}
