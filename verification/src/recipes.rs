//! Builtin recipes: named configuration presets to start from.
//!
//! A recipe is a partial configuration document. Selecting `recipe = "name"`
//! uses it as the base, with the user's own tables layered on top (user keys
//! win). This is composition over the existing modules, not a new execution
//! path.

use vstd::prelude::*;

use crate::text::{join, join_strings, owned, push_str, str_eq};
use crate::types::{Error, ErrorV};

verus! {

/// A builtin recipe: stable name, one-line description, preset document.
#[derive(Debug, Clone, Copy)]
pub struct Recipe {
    pub name: &'static str,
    pub description: &'static str,
    pub preset: &'static str,
}

pub const BASELINE: &'static str = "
profile = \"balanced\"

[firewall]
allow = []
";

pub const WEB_SERVER: &'static str = "
profile = \"balanced\"

[firewall]
allow = [\"80/tcp\", \"443/tcp\"]

[fail2ban]
jails = [\"sshd\"]
";

pub const DOCKER_HOST: &'static str = "
profile = \"balanced\"

[firewall]
allow = []

[docker]
enabled = true
";

pub const WORDPRESS: &'static str = "
profile = \"balanced\"

[firewall]
allow = [\"80/tcp\", \"443/tcp\"]

[docker]
enabled = true

[app]
enabled = true
framework = \"wordpress\"
";

/// The builtin recipes as (name, description, preset), in listing order.
pub open spec fn builtins() -> Seq<(Seq<char>, Seq<char>, Seq<char>)> {
    seq![
        ("baseline"@, "SSH hardening, default-deny firewall, fail2ban, auto-updates"@, BASELINE@),
        ("web-server"@, "Baseline plus inbound 80/443 for a public web server"@, WEB_SERVER@),
        ("docker-host"@, "Baseline plus Docker installed and enabled"@, DOCKER_HOST@),
        (
            "wordpress"@,
            "Baseline plus a Docker WordPress + MariaDB stack (set app.domain for HTTPS)"@,
            WORDPRESS@,
        ),
    ]
}

/// The value of a recipe.
pub open spec fn recipe_value(r: Recipe) -> (Seq<char>, Seq<char>, Seq<char>) {
    (r.name@, r.description@, r.preset@)
}

/// All builtin recipes.
pub fn all() -> (r: Vec<Recipe>)
    ensures
        r@.map_values(|x: Recipe| recipe_value(x)) == builtins(),
{
    let r = vec![
        Recipe {
            name: "baseline",
            description: "SSH hardening, default-deny firewall, fail2ban, auto-updates",
            preset: BASELINE,
        },
        Recipe {
            name: "web-server",
            description: "Baseline plus inbound 80/443 for a public web server",
            preset: WEB_SERVER,
        },
        Recipe {
            name: "docker-host",
            description: "Baseline plus Docker installed and enabled",
            preset: DOCKER_HOST,
        },
        Recipe {
            name: "wordpress",
            description: "Baseline plus a Docker WordPress + MariaDB stack (set app.domain for HTTPS)",
            preset: WORDPRESS,
        },
    ];
    assert(r@.map_values(|x: Recipe| recipe_value(x)) =~= builtins());
    r
}

/// The first builtin named `name`, as an index.
pub open spec fn find_recipe(name: Seq<char>) -> Option<int> {
    if exists|i: int| 0 <= i < builtins().len() && #[trigger] builtins()[i].0 == name {
        Some(choose|i: int| 0 <= i < builtins().len() && #[trigger] builtins()[i].0 == name)
    } else {
        None
    }
}

/// The preset of the builtin named `name`.
pub open spec fn spec_preset(name: Seq<char>) -> Option<Seq<char>> {
    match find_recipe(name) {
        Some(i) => Some(builtins()[i].2),
        None => None,
    }
}

/// Preset for `name`, if it exists.
pub fn preset(name: &str) -> (r: Option<&'static str>)
    ensures
        match r {
            Some(p) => spec_preset(name@) == Some(p@),
            None => spec_preset(name@) is None,
        },
{
    let rs = all();
    let ghost b = builtins();
    let mut i: usize = 0;
    while i < rs.len()
        invariant
            i <= rs@.len(),
            rs@.map_values(|x: Recipe| recipe_value(x)) == b,
            b == builtins(),
            forall|j: int| 0 <= j < i ==> b[j].0 != name@,
        decreases rs@.len() - i,
    {
        if str_eq(rs[i].name, name) {
            proof {
                assert(b[i as int] == recipe_value(rs@[i as int]));
                assert(builtins()[i as int].0 == name@);
                lemma_names_distinct();
                let j = choose|j: int| 0 <= j < builtins().len() && #[trigger] builtins()[j].0 == name@;
                assert(builtins()[j].0 == builtins()[i as int].0);
                assert(j == i);
            }
            return Some(rs[i].preset);
        }
        proof {
            assert(b[i as int] == recipe_value(rs@[i as int]));
        }
        i = i + 1;
    }
    None
}

/// The builtin names differ.
proof fn lemma_names_distinct()
    ensures
        forall|i: int, j: int|
            0 <= i < builtins().len() && 0 <= j < builtins().len() && #[trigger] builtins()[i].0
                == #[trigger] builtins()[j].0 ==> i == j,
{
    reveal_strlit("baseline");
    reveal_strlit("web-server");
    reveal_strlit("docker-host");
    reveal_strlit("wordpress");
    assert("baseline"@[0] != "web-server"@[0]);
    assert("baseline"@[0] != "docker-host"@[0]);
    assert("baseline"@[0] != "wordpress"@[0]);
    assert("web-server"@[0] != "docker-host"@[0]);
    assert("docker-host"@[0] != "wordpress"@[0]);
    assert("web-server"@[1] != "wordpress"@[1]);
}

/// The builtin names, in listing order.
pub open spec fn spec_names() -> Seq<Seq<char>> {
    builtins().map_values(|r: (Seq<char>, Seq<char>, Seq<char>)| r.0)
}

/// Recipe names, for error messages and listings.
pub fn names() -> (r: Vec<&'static str>)
    ensures
        r@.map_values(|s: &'static str| s@) == spec_names(),
{
    let rs = all();
    let mut out: Vec<&'static str> = Vec::new();
    let mut i: usize = 0;
    while i < rs.len()
        invariant
            i <= rs@.len(),
            rs@.map_values(|x: Recipe| recipe_value(x)) == builtins(),
            out@.map_values(|s: &'static str| s@) == spec_names().take(i as int),
        decreases rs@.len() - i,
    {
        let ghost before = out@;
        out.push(rs[i].name);
        proof {
            assert(builtins()[i as int] == recipe_value(rs@[i as int]));
            assert(out@ == before.push(rs@[i as int].name));
            assert(out@.map_values(|s: &'static str| s@) =~= before.map_values(|s: &'static str| s@).push(
                rs@[i as int].name@,
            ));
            assert(spec_names().take(i + 1) =~= spec_names().take(i as int).push(builtins()[i as int].0));
        }
        i = i + 1;
    }
    assert(spec_names().take(i as int) =~= spec_names());
    out
}

/// The error for a recipe name that is not builtin.
pub open spec fn unknown_recipe(name: Seq<char>) -> ErrorV {
    ErrorV::Config("unknown recipe `"@ + name + "`; available: "@ + join(spec_names(), seq![',', ' ']))
}

/// The preset a configuration's `recipe = "name"` layers the user's keys
/// over, or the error naming the builtin recipes.
pub fn recipe_base(name: &str) -> (r: Result<&'static str, Error>)
    ensures
        match r {
            Ok(p) => spec_preset(name@) == Some(p@),
            Err(e) => spec_preset(name@) is None && e.deep_view() == unknown_recipe(name@),
        },
{
    match preset(name) {
        Some(p) => Ok(p),
        None => {
            let mut m = owned("unknown recipe `");
            push_str(&mut m, name);
            push_str(&mut m, "`; available: ");
            let ns = names();
            let mut owned_names: Vec<String> = Vec::new();
            let mut i: usize = 0;
            while i < ns.len()
                invariant
                    i <= ns@.len(),
                    ns@.map_values(|s: &'static str| s@) == spec_names(),
                    owned_names.deep_view() == spec_names().take(i as int),
                decreases ns@.len() - i,
            {
                let ghost before = owned_names.deep_view();
                let x = owned(ns[i]);
                owned_names.push(x);
                proof {
                    assert(owned_names.deep_view() =~= before.push(x@));
                    assert(spec_names()[i as int] == ns@[i as int]@);
                    assert(spec_names().take(i + 1) =~= spec_names().take(i as int).push(spec_names()[i as int]));
                }
                i = i + 1;
            }
            assert(spec_names().take(i as int) =~= spec_names());
            let sep = ", ";
            proof {
                reveal_strlit(", ");
                assert(sep@ =~= seq![',', ' ']);
            }
            let list = join_strings(&owned_names, sep);
            push_str(&mut m, list.as_str());
            Err(Error::Config(m))
        },
    }
}

/// Law: a preset exists exactly for the names that `names` lists, and it is
/// the preset of the recipe of `all` with that name.
pub proof fn law_preset_iff_named(name: Seq<char>)
    ensures
        spec_preset(name) is Some <==> spec_names().contains(name),
        forall|i: int|
            0 <= i < builtins().len() && #[trigger] builtins()[i].0 == name ==> spec_preset(name)
                == Some(builtins()[i].2),
{
    if spec_names().contains(name) {
        let j = choose|j: int| 0 <= j < spec_names().len() && spec_names()[j] == name;
        assert(builtins()[j].0 == name);
    }
    if spec_preset(name) is Some {
        let j = find_recipe(name).unwrap();
        assert(spec_names()[j] == name);
    }
    assert forall|i: int|
        0 <= i < builtins().len() && #[trigger] builtins()[i].0 == name implies spec_preset(name)
            == Some(builtins()[i].2) by {
        let j = find_recipe(name).unwrap();
        assert(builtins()[j].0 == name);
        lemma_names_distinct();
        assert(builtins()[i].0 == builtins()[j].0);
    }
}

} // verus!
