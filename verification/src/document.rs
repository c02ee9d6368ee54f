//! Reading a configuration document: the TOML text parsed into a document
//! tree, with a `recipe = "name"` preset layered under the user's own keys.

use vstd::prelude::*;

use crate::merge::{deep_merge, lemma_key_index, lemma_table_view, lookup, spec_merge, tree_view, ventries, Tree, TreeV};
use crate::recipes::{recipe_base, spec_preset, unknown_recipe};
use crate::text::str_eq;
use crate::types::{Error, ErrorV};

verus! {

#[verifier::external_type_specification]
#[verifier::external_body]
pub struct ExTomlValue(toml::Value);

/// A leaf of a configuration document: a string, or any other TOML value
/// (number, boolean, date, array), carried as the parser gave it.
#[derive(Debug)]
pub enum TomlLeaf {
    Text(String),
    Other(toml::Value),
}

/// What `toml::from_str` makes of a document, as a tree (tables become
/// tables, strings text leaves, every other value an opaque leaf), or the
/// parser's error message.
pub uninterp spec fn toml_parse(input: Seq<char>) -> Result<TreeV<TomlLeaf>, Seq<char>>;

/// `toml::from_str::<toml::Value>` on `input`, its value turned into a
/// document tree. Claimed: the outcome, tree or error message, is
/// [`toml_parse`] of the text, so the same text always reads the same.
#[verifier::external_body]
fn parse_toml(input: &str) -> (r: Result<Tree<TomlLeaf>, String>)
    ensures
        match r {
            Ok(t) => toml_parse(input@) == Ok::<TreeV<TomlLeaf>, Seq<char>>(tree_view(t)),
            Err(m) => toml_parse(input@) == Err::<TreeV<TomlLeaf>, Seq<char>>(m@),
        },
{
    match toml::from_str::<toml::Value>(input) {
        Ok(v) => Ok(document_of(v)),
        Err(e) => Err(e.to_string()),
    }
}

/// The document tree of a parsed `toml::Value`, converted one for one: a
/// table's entries in the table's own order, a string as text, any other
/// value as it is. Nothing is claimed of it beyond [`parse_toml`]'s contract.
#[verifier::external_body]
fn document_of(v: toml::Value) -> Tree<TomlLeaf> {
    match v {
        toml::Value::Table(t) => Tree::Table(t.into_iter().map(|(k, v)| (k, document_of(v))).collect()),
        toml::Value::String(s) => Tree::Leaf(TomlLeaf::Text(s)),
        other => Tree::Leaf(TomlLeaf::Other(other)),
    }
}

/// The recipe a document names: its top-level `recipe` key, when that holds
/// a string.
pub open spec fn recipe_name(doc: TreeV<TomlLeaf>) -> Option<Seq<char>> {
    match doc {
        TreeV::Table(es) => match lookup(es, "recipe"@) {
            Some(TreeV::Leaf(TomlLeaf::Text(s))) => Some(s@),
            _ => None,
        },
        TreeV::Leaf(_) => None,
    }
}

/// The document a configuration text stands for: a text that does not parse
/// is a configuration error; a `recipe` naming no builtin is the unknown
/// recipe error; a builtin recipe's preset has the user's document layered
/// over it; without a recipe the user's document stands as it is.
pub open spec fn spec_resolve_tree(input: Seq<char>) -> Result<TreeV<TomlLeaf>, ErrorV> {
    match toml_parse(input) {
        Err(m) => Err(ErrorV::Config(m)),
        Ok(user) => match recipe_name(user) {
            None => Ok(user),
            Some(name) => match spec_preset(name) {
                None => Err(unknown_recipe(name)),
                Some(p) => match toml_parse(p) {
                    Err(m) => Err(ErrorV::Config(m)),
                    Ok(base) => Ok(spec_merge(base, user)),
                },
            },
        },
    }
}

/// The recipe a document names, if any.
pub fn recipe_of(doc: &Tree<TomlLeaf>) -> (r: Option<String>)
    ensures
        match r {
            Some(s) => recipe_name(tree_view(*doc)) == Some(s@),
            None => recipe_name(tree_view(*doc)) is None,
        },
{
    match doc {
        Tree::Table(es) => {
            proof {
                lemma_table_view(*es);
            }
            let ghost v = ventries(es@);
            let key = "recipe";
            proof {
                reveal_strlit("recipe");
            }
            let mut j: usize = 0;
            while j < es.len() && !str_eq(es[j].0.as_str(), key)
                invariant
                    j <= es@.len(),
                    v == ventries(es@),
                    key@ == "recipe"@,
                    forall|x: int| 0 <= x < j ==> #[trigger] v[x].0 != "recipe"@,
                decreases es@.len() - j,
            {
                assert(v[j as int].0 == es@[j as int].0@);
                j = j + 1;
            }
            proof {
                if j < es.len() {
                    assert(v[j as int].0 == es@[j as int].0@);
                }
                lemma_key_index(v, "recipe"@, j as int);
            }
            if j < es.len() {
                assert(v[j as int].1 == tree_view(es@[j as int].1));
                match &es[j].1 {
                    Tree::Leaf(TomlLeaf::Text(s)) => Some(s.clone()),
                    _ => None,
                }
            } else {
                None
            }
        },
        Tree::Leaf(_) => None,
    }
}

/// Read a configuration text into its document: parse it, and when it names
/// a recipe, layer it over that recipe's preset (the user's keys win).
pub fn resolve_tree(input: &str) -> (r: Result<Tree<TomlLeaf>, Error>)
    ensures
        match r {
            Ok(t) => spec_resolve_tree(input@) == Ok::<TreeV<TomlLeaf>, ErrorV>(tree_view(t)),
            Err(e) => spec_resolve_tree(input@) == Err::<TreeV<TomlLeaf>, ErrorV>(e.deep_view()),
        },
{
    let user = match parse_toml(input) {
        Ok(t) => t,
        Err(m) => return Err(Error::Config(m)),
    };
    match recipe_of(&user) {
        None => Ok(user),
        Some(name) => match recipe_base(name.as_str()) {
            Err(e) => Err(e),
            Ok(preset) => match parse_toml(preset) {
                Err(m) => Err(Error::Config(m)),
                Ok(base) => Ok(deep_merge(base, user)),
            },
        },
    }
}

} // verus!
