//! Inventory of remote servers.
//!
//! Servers are keyed by a short name, kept in name order, and carry
//! connection details plus tags. A selector picks one server by name, or a
//! group of servers by tag.

use vstd::prelude::*;

use crate::dashboard::{ascending, lex_lt};
use crate::text::{owned, str_eq};

verus! {

/// One remote server.
#[derive(Debug, Clone)]
pub struct Server {
    /// Hostname or IP to connect to.
    pub host: String,
    /// SSH port.
    pub port: u16,
    /// SSH user.
    pub user: String,
    /// Tags used to select groups of servers.
    pub tags: Vec<String>,
}

/// The mathematical value of a [`Server`].
pub struct ServerV {
    pub host: Seq<char>,
    pub port: u16,
    pub user: Seq<char>,
    pub tags: Seq<Seq<char>>,
}

impl DeepView for Server {
    type V = ServerV;

    open spec fn deep_view(&self) -> ServerV {
        ServerV { host: self.host@, port: self.port, user: self.user@, tags: self.tags.deep_view() }
    }
}

impl Default for Server {
    fn default() -> (r: Self)
        ensures
            r.host@.len() == 0,
            r.port == 22,
            r.user@ == "root"@,
            r.tags@.len() == 0,
    {
        Server { host: String::new(), port: 22, user: owned("root"), tags: Vec::new() }
    }
}

/// A set of named servers (`[servers.<name>]`), in ascending name order.
#[derive(Debug, Clone, Default)]
pub struct Inventory {
    pub servers: Vec<(String, Server)>,
}

/// The names of the servers.
pub open spec fn server_names(servers: Seq<(String, Server)>) -> Seq<Seq<char>> {
    servers.map_values(|p: (String, Server)| p.0@)
}

/// Index of the first server named `name`.
pub open spec fn find_server(servers: Seq<(String, Server)>, name: Seq<char>) -> Option<int>
    decreases servers.len(),
{
    if servers.len() == 0 {
        None
    } else if servers[0].0@ == name {
        Some(0)
    } else {
        match find_server(servers.drop_first(), name) {
            Some(i) => Some(i + 1),
            None => None,
        }
    }
}

/// The servers carrying `tag`, in order.
pub open spec fn tagged(servers: Seq<(String, Server)>, tag: Seq<char>) -> Seq<(Seq<char>, ServerV)>
    decreases servers.len(),
{
    if servers.len() == 0 {
        Seq::empty()
    } else {
        tagged(servers.drop_last(), tag) + (if servers.last().1.tags.deep_view().contains(tag) {
            seq![(servers.last().0@, servers.last().1.deep_view())]
        } else {
            Seq::empty()
        })
    }
}

/// Select by exact name, else by tag.
pub open spec fn spec_select(servers: Seq<(String, Server)>, selector: Seq<char>) -> Seq<(Seq<char>, ServerV)> {
    match find_server(servers, selector) {
        Some(i) => seq![(servers[i].0@, servers[i].1.deep_view())],
        None => tagged(servers, selector),
    }
}

/// The value of a selection.
pub open spec fn selection_view(sel: Seq<(&str, &Server)>) -> Seq<(Seq<char>, ServerV)> {
    sel.map_values(|p: (&str, &Server)| (p.0@, p.1.deep_view()))
}

/// Whether `tags` holds `tag`.
fn has_tag(tags: &Vec<String>, tag: &str) -> (r: bool)
    ensures
        r == tags.deep_view().contains(tag@),
{
    let mut i: usize = 0;
    while i < tags.len()
        invariant
            i <= tags@.len(),
            forall|j: int| 0 <= j < i ==> tags.deep_view()[j] != tag@,
        decreases tags@.len() - i,
    {
        if str_eq(tags[i].as_str(), tag) {
            assert(tags.deep_view()[i as int] == tag@);
            return true;
        }
        i = i + 1;
    }
    false
}

impl Inventory {
    /// Server names are ascending, each once.
    pub open spec fn wf(&self) -> bool {
        ascending(server_names(self.servers@))
    }

    /// Select servers by exact name, else by tag. Empty when nothing matches.
    pub fn select(&self, selector: &str) -> (r: Vec<(&str, &Server)>)
        ensures
            selection_view(r@) == spec_select(self.servers@, selector@),
            self.wf() ==> ascending(selected_names(selection_view(r@))),
    {
        proof {
            if self.wf() {
                lemma_select_ascending(self.servers@, selector@);
            }
        }
        let mut i: usize = 0;
        assert(self.servers@.skip(0) =~= self.servers@);
        while i < self.servers.len()
            invariant
                i <= self.servers@.len(),
                forall|j: int| 0 <= j < i ==> self.servers@[j].0@ != selector@,
            decreases self.servers@.len() - i,
        {
            if str_eq(self.servers[i].0.as_str(), selector) {
                let (name, server) = &self.servers[i];
                let mut out: Vec<(&str, &Server)> = Vec::new();
                out.push((name.as_str(), server));
                proof {
                    lemma_find_server(self.servers@, selector@, i as int);
                    assert(selection_view(out@) =~= spec_select(self.servers@, selector@));
                }
                return out;
            }
            i = i + 1;
        }
        proof {
            lemma_find_server_none(self.servers@, selector@);
        }
        let mut out: Vec<(&str, &Server)> = Vec::new();
        let mut k: usize = 0;
        assert(selection_view(out@) =~= tagged(self.servers@.take(0), selector@));
        while k < self.servers.len()
            invariant
                k <= self.servers@.len(),
                selection_view(out@) == tagged(self.servers@.take(k as int), selector@),
            decreases self.servers@.len() - k,
        {
            let (name, server) = &self.servers[k];
            let ghost before = out@;
            proof {
                assert(self.servers@.take(k + 1).drop_last() =~= self.servers@.take(k as int));
            }
            if has_tag(&server.tags, selector) {
                out.push((name.as_str(), server));
                assert(selection_view(out@) =~= selection_view(before).push((name@, server.deep_view())));
            }
            k = k + 1;
        }
        assert(self.servers@.take(k as int) =~= self.servers@);
        out
    }
}

proof fn lemma_find_server(servers: Seq<(String, Server)>, name: Seq<char>, i: int)
    requires
        0 <= i < servers.len(),
        servers[i].0@ == name,
        forall|j: int| 0 <= j < i ==> servers[j].0@ != name,
    ensures
        find_server(servers, name) == Some(i),
    decreases i,
{
    if i > 0 {
        let rest = servers.drop_first();
        assert forall|j: int| 0 <= j < i - 1 implies rest[j].0@ != name by {
            assert(rest[j] == servers[j + 1]);
        }
        lemma_find_server(rest, name, i - 1);
    }
}

proof fn lemma_find_server_none(servers: Seq<(String, Server)>, name: Seq<char>)
    requires
        forall|j: int| 0 <= j < servers.len() ==> servers[j].0@ != name,
    ensures
        find_server(servers, name) is None,
    decreases servers.len(),
{
    if servers.len() > 0 {
        let rest = servers.drop_first();
        assert forall|j: int| 0 <= j < rest.len() implies rest[j].0@ != name by {
            assert(rest[j] == servers[j + 1]);
        }
        lemma_find_server_none(rest, name);
    }
}


/// The names of a selection, in order.
pub open spec fn selected_names(sel: Seq<(Seq<char>, ServerV)>) -> Seq<Seq<char>> {
    sel.map_values(|p: (Seq<char>, ServerV)| p.0)
}

/// Every server a tag selects is one of the servers.
proof fn lemma_tagged_names(servers: Seq<(String, Server)>, tag: Seq<char>)
    ensures
        forall|x: int|
            0 <= x < tagged(servers, tag).len() ==> exists|j: int|
                0 <= j < servers.len() && #[trigger] tagged(servers, tag)[x].0 == servers[j].0@,
    decreases servers.len(),
{
    if servers.len() > 0 {
        let d = servers.drop_last();
        lemma_tagged_names(d, tag);
        let t = tagged(servers, tag);
        let td = tagged(d, tag);
        assert forall|x: int| 0 <= x < t.len() implies exists|j: int|
            0 <= j < servers.len() && #[trigger] t[x].0 == servers[j].0@ by {
            if x < td.len() {
                assert(t[x] == td[x]);
                let j = choose|j: int| 0 <= j < d.len() && #[trigger] td[x].0 == d[j].0@;
                assert(d[j] == servers[j]);
            } else {
                assert(t[x].0 == servers[servers.len() - 1].0@);
            }
        }
    }
}

/// Over ascending names, a tag selects servers in ascending name order.
proof fn lemma_tagged_ascending(servers: Seq<(String, Server)>, tag: Seq<char>)
    requires
        ascending(server_names(servers)),
    ensures
        ascending(selected_names(tagged(servers, tag))),
    decreases servers.len(),
{
    if servers.len() > 0 {
        let d = servers.drop_last();
        let n = servers.len() - 1;
        assert forall|i: int, j: int| 0 <= i < j < server_names(d).len() implies lex_lt(
            #[trigger] server_names(d)[i],
            #[trigger] server_names(d)[j],
        ) by {
            assert(server_names(d)[i] == server_names(servers)[i]);
            assert(server_names(d)[j] == server_names(servers)[j]);
        }
        lemma_tagged_ascending(d, tag);
        lemma_tagged_names(d, tag);
        let t = selected_names(tagged(servers, tag));
        let td = selected_names(tagged(d, tag));
        assert forall|i: int, j: int| 0 <= i < j < t.len() implies lex_lt(#[trigger] t[i], #[trigger] t[j]) by {
            assert(t[i] == td[i]);
            if j < td.len() {
                assert(t[j] == td[j]);
            } else {
                let k = choose|k: int| 0 <= k < d.len() && #[trigger] tagged(d, tag)[i].0 == d[k].0@;
                assert(td[i] == tagged(d, tag)[i].0);
                assert(t[j] == servers[n].0@);
                assert(server_names(servers)[k] == d[k].0@);
                assert(server_names(servers)[n] == servers[n].0@);
            }
        }
    }
}

/// A selection from ascending names is in ascending name order.
proof fn lemma_select_ascending(servers: Seq<(String, Server)>, selector: Seq<char>)
    requires
        ascending(server_names(servers)),
    ensures
        ascending(selected_names(spec_select(servers, selector))),
{
    match find_server(servers, selector) {
        Some(i) => {
            assert(selected_names(spec_select(servers, selector)).len() == 1);
        },
        None => lemma_tagged_ascending(servers, selector),
    }
}

} // verus!
