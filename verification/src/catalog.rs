//! The registry of modules: every module by id, and a catalog that keeps
//! them in plan order (security baseline first).

use vstd::prelude::*;

use crate::text::str_eq;
use crate::types::{category_rank, Category};

verus! {

/// Every configuration module.
#[derive(Debug, Clone, Copy, PartialEq, Eq, Structural)]
pub enum ModuleId {
    Ssh,
    Firewall,
    Users,
    Fail2ban,
    Updates,
    System,
    Monitoring,
    Docker,
    Postgres,
    Redis,
    Caddy,
    Tailscale,
    App,
}

/// The stable id used in config keys and the UI.
pub open spec fn spec_name(m: ModuleId) -> Seq<char> {
    match m {
        ModuleId::Ssh => "ssh"@,
        ModuleId::Firewall => "firewall"@,
        ModuleId::Users => "users"@,
        ModuleId::Fail2ban => "fail2ban"@,
        ModuleId::Updates => "updates"@,
        ModuleId::System => "system"@,
        ModuleId::Monitoring => "monitoring"@,
        ModuleId::Docker => "docker"@,
        ModuleId::Postgres => "postgres"@,
        ModuleId::Redis => "redis"@,
        ModuleId::Caddy => "caddy"@,
        ModuleId::Tailscale => "tailscale"@,
        ModuleId::App => "app"@,
    }
}

/// The one-line description of a module.
pub open spec fn spec_summary(m: ModuleId) -> Seq<char> {
    match m {
        ModuleId::Ssh => "Harden sshd: custom port, no root/password login, modern crypto"@,
        ModuleId::Firewall => "nftables: default-deny input, allow listed ports, SSH protected"@,
        ModuleId::Users => "Create users, grant sudo via sudoers.d, install SSH keys"@,
        ModuleId::Fail2ban => "Install fail2ban and enable jails (sshd by default)"@,
        ModuleId::Updates => "Enable automatic security updates with an optional reboot window"@,
        ModuleId::System => "Set hostname, timezone, and a swap file"@,
        ModuleId::Monitoring => "Install a metrics agent (netdata dashboard or node_exporter)"@,
        ModuleId::Docker => "Install Docker, enable the service, add users to the docker group"@,
        ModuleId::Postgres => "Install PostgreSQL, enable it, create databases"@,
        ModuleId::Redis => "Install Redis and enable its service"@,
        ModuleId::Caddy => "Install Caddy reverse proxy with automatic HTTPS"@,
        ModuleId::Tailscale => "Install Tailscale and join the tailnet"@,
        ModuleId::App => "Deploy an app (Django, Laravel, Node, WordPress, ...) via compose"@,
    }
}

/// The category a module is planned and grouped under.
pub open spec fn spec_category(m: ModuleId) -> Category {
    match m {
        ModuleId::Ssh | ModuleId::Firewall | ModuleId::Users | ModuleId::Fail2ban => Category::Security,
        ModuleId::Updates | ModuleId::System | ModuleId::Monitoring => Category::System,
        ModuleId::Docker | ModuleId::Postgres | ModuleId::Redis => Category::Runtime,
        ModuleId::Caddy | ModuleId::Tailscale => Category::Network,
        ModuleId::App => Category::App,
    }
}

/// The plan-order rank of a module.
pub open spec fn module_rank(m: ModuleId) -> u8 {
    category_rank(spec_category(m))
}

impl ModuleId {
    pub fn name(self) -> (r: &'static str)
        ensures
            r@ == spec_name(self),
    {
        match self {
            ModuleId::Ssh => "ssh",
            ModuleId::Firewall => "firewall",
            ModuleId::Users => "users",
            ModuleId::Fail2ban => "fail2ban",
            ModuleId::Updates => "updates",
            ModuleId::System => "system",
            ModuleId::Monitoring => "monitoring",
            ModuleId::Docker => "docker",
            ModuleId::Postgres => "postgres",
            ModuleId::Redis => "redis",
            ModuleId::Caddy => "caddy",
            ModuleId::Tailscale => "tailscale",
            ModuleId::App => "app",
        }
    }

    /// One-line description shown in the plan and dashboard.
    pub fn summary(self) -> (r: &'static str)
        ensures
            r@ == spec_summary(self),
    {
        match self {
            ModuleId::Ssh => crate::ssh::SshModule.summary(),
            ModuleId::Firewall => crate::firewall::FirewallModule.summary(),
            ModuleId::Users => crate::users::UsersModule.summary(),
            ModuleId::Fail2ban => crate::fail2ban::Fail2banModule.summary(),
            ModuleId::Updates => crate::updates::UpdatesModule.summary(),
            ModuleId::System => crate::system::SystemModule.summary(),
            ModuleId::Monitoring => crate::monitoring::MonitoringModule.summary(),
            ModuleId::Docker => crate::docker::DockerModule.summary(),
            ModuleId::Postgres => crate::postgres::PostgresModule.summary(),
            ModuleId::Redis => crate::redis::RedisModule.summary(),
            ModuleId::Caddy => crate::caddy::CaddyModule.summary(),
            ModuleId::Tailscale => crate::tailscale::TailscaleModule.summary(),
            ModuleId::App => crate::app::AppModule.summary(),
        }
    }

    pub fn category(self) -> (r: Category)
        ensures
            r == spec_category(self),
    {
        match self {
            ModuleId::Ssh | ModuleId::Firewall | ModuleId::Users | ModuleId::Fail2ban => Category::Security,
            ModuleId::Updates | ModuleId::System | ModuleId::Monitoring => Category::System,
            ModuleId::Docker | ModuleId::Postgres | ModuleId::Redis => Category::Runtime,
            ModuleId::Caddy | ModuleId::Tailscale => Category::Network,
            ModuleId::App => Category::App,
        }
    }

    /// Modules whose apply can lock the operator out; they get the timed
    /// confirmation guard.
    pub fn lockout_risk(self) -> (r: bool)
        ensures
            r == (self == ModuleId::Ssh || self == ModuleId::Firewall),
    {
        match self {
            ModuleId::Ssh | ModuleId::Firewall => true,
            _ => false,
        }
    }
}

/// Every module, in registration order.
pub open spec fn spec_all() -> Seq<ModuleId> {
    seq![
        ModuleId::Ssh,
        ModuleId::Firewall,
        ModuleId::Users,
        ModuleId::Fail2ban,
        ModuleId::Updates,
        ModuleId::System,
        ModuleId::Monitoring,
        ModuleId::Docker,
        ModuleId::Postgres,
        ModuleId::Redis,
        ModuleId::Caddy,
        ModuleId::Tailscale,
        ModuleId::App,
    ]
}

/// Every module.
pub fn all() -> (r: Vec<ModuleId>)
    ensures
        r@ == spec_all(),
{
    let r = vec![
        ModuleId::Ssh,
        ModuleId::Firewall,
        ModuleId::Users,
        ModuleId::Fail2ban,
        ModuleId::Updates,
        ModuleId::System,
        ModuleId::Monitoring,
        ModuleId::Docker,
        ModuleId::Postgres,
        ModuleId::Redis,
        ModuleId::Caddy,
        ModuleId::Tailscale,
        ModuleId::App,
    ];
    assert(r@ =~= spec_all());
    r
}

/// The modules of rank `k`, in their given order.
pub open spec fn of_rank(ms: Seq<ModuleId>, k: u8) -> Seq<ModuleId>
    decreases ms.len(),
{
    if ms.len() == 0 {
        Seq::empty()
    } else {
        of_rank(ms.drop_last(), k) + (if module_rank(ms.last()) == k {
            seq![ms.last()]
        } else {
            Seq::empty()
        })
    }
}

/// `ms` stably sorted by category rank: each rank's modules in their given
/// order, lower ranks first.
pub open spec fn plan_order(ms: Seq<ModuleId>) -> Seq<ModuleId> {
    of_rank(ms, 0) + of_rank(ms, 1) + of_rank(ms, 2) + of_rank(ms, 3) + of_rank(ms, 4)
}

/// Owns the modules and exposes lookup, iteration, and filtering, in plan
/// order.
#[derive(Debug, Clone)]
pub struct ModuleCatalog {
    modules: Vec<ModuleId>,
}

impl View for ModuleCatalog {
    type V = Seq<ModuleId>;

    closed spec fn view(&self) -> Seq<ModuleId> {
        self.modules@
    }
}

fn collect_rank(ms: &Vec<ModuleId>, k: u8, out: &mut Vec<ModuleId>)
    ensures
        final(out)@ == old(out)@ + of_rank(ms@, k),
{
    let mut i: usize = 0;
    let ghost start = out@;
    while i < ms.len()
        invariant
            i <= ms@.len(),
            out@ == start + of_rank(ms@.take(i as int), k),
        decreases ms@.len() - i,
    {
        let m = ms[i];
        proof {
            assert(ms@.take(i + 1).drop_last() =~= ms@.take(i as int));
        }
        if m.category().rank() == k {
            out.push(m);
        }
        proof {
            assert(out@ =~= start + of_rank(ms@.take(i + 1), k));
        }
        i = i + 1;
    }
    assert(ms@.take(i as int) =~= ms@);
}

/// The modules of `ms` in `category`, in order.
pub open spec fn in_category(ms: Seq<ModuleId>, c: Category) -> Seq<ModuleId> {
    of_rank(ms, category_rank(c))
}

/// The first module named `name`.
pub open spec fn spec_get(ms: Seq<ModuleId>, name: Seq<char>) -> Option<ModuleId>
    decreases ms.len(),
{
    if ms.len() == 0 {
        None
    } else if spec_name(ms[0]) == name {
        Some(ms[0])
    } else {
        spec_get(ms.drop_first(), name)
    }
}

impl ModuleCatalog {
    /// Build a catalog, ordering modules by category (security first) and
    /// keeping the given order within a category.
    pub fn new(modules: Vec<ModuleId>) -> (r: Self)
        ensures
            r@ == plan_order(modules@),
    {
        let mut sorted: Vec<ModuleId> = Vec::new();
        collect_rank(&modules, 0, &mut sorted);
        collect_rank(&modules, 1, &mut sorted);
        collect_rank(&modules, 2, &mut sorted);
        collect_rank(&modules, 3, &mut sorted);
        collect_rank(&modules, 4, &mut sorted);
        assert(sorted@ =~= plan_order(modules@));
        ModuleCatalog { modules: sorted }
    }

    /// Look up a module by its stable id.
    pub fn get(&self, name: &str) -> (r: Option<ModuleId>)
        ensures
            r == spec_get(self@, name@),
    {
        let mut i: usize = 0;
        assert(self.modules@.skip(0) =~= self.modules@);
        while i < self.modules.len()
            invariant
                i <= self.modules@.len(),
                spec_get(self.modules@, name@) == spec_get(self.modules@.skip(i as int), name@),
            decreases self.modules@.len() - i,
        {
            let m = self.modules[i];
            assert(self.modules@.skip(i as int)[0] == m);
            if str_eq(m.name(), name) {
                return Some(m);
            }
            assert(self.modules@.skip(i as int).drop_first() =~= self.modules@.skip(i + 1));
            i = i + 1;
        }
        None
    }

    /// Every module in plan order.
    pub fn iter(&self) -> (r: Vec<ModuleId>)
        ensures
            r@ == self@,
    {
        self.modules.clone()
    }

    /// Only the modules in `category`.
    pub fn by_category(&self, category: Category) -> (r: Vec<ModuleId>)
        ensures
            r@ == in_category(self@, category),
    {
        let mut out: Vec<ModuleId> = Vec::new();
        collect_rank(&self.modules, category.rank(), &mut out);
        assert(out@ =~= in_category(self@, category));
        out
    }

    pub fn len(&self) -> (r: usize)
        ensures
            r == self@.len(),
    {
        self.modules.len()
    }

    pub fn is_empty(&self) -> (r: bool)
        ensures
            r == (self@.len() == 0),
    {
        self.modules.len() == 0
    }
}

/// Every module lands in exactly the rank bucket of its category.
proof fn lemma_of_rank_count(ms: Seq<ModuleId>, m: ModuleId)
    ensures
        of_rank(ms, module_rank(m)).to_multiset().count(m) == ms.to_multiset().count(m),
        forall|k: u8| k != module_rank(m) ==> of_rank(ms, k).to_multiset().count(m) == 0,
    decreases ms.len(),
{
    broadcast use vstd::seq_lib::group_to_multiset_ensures;
    if ms.len() > 0 {
        lemma_of_rank_count(ms.drop_last(), m);
        assert(ms =~= ms.drop_last().push(ms.last()));
        assert forall|k: u8| k != module_rank(m) implies of_rank(ms, k).to_multiset().count(m) == 0 by {
            lemma_of_rank_count(ms.drop_last(), m);
            if module_rank(ms.last()) == k {
                assert(of_rank(ms, k) =~= of_rank(ms.drop_last(), k).push(ms.last()));
            } else {
                assert(of_rank(ms, k) =~= of_rank(ms.drop_last(), k));
            }
        }
        let k = module_rank(m);
        if module_rank(ms.last()) == k {
            assert(of_rank(ms, k) =~= of_rank(ms.drop_last(), k).push(ms.last()));
        } else {
            assert(of_rank(ms, k) =~= of_rank(ms.drop_last(), k));
        }
    }
}

proof fn lemma_rank_le_4(m: ModuleId)
    ensures
        module_rank(m) <= 4,
{
}

/// Law: a catalog holds exactly the modules it was built from, each as
/// often, in plan order (rank never decreases along it).
pub proof fn law_catalog_is_sorted_permutation(ms: Seq<ModuleId>)
    ensures
        plan_order(ms).to_multiset() == ms.to_multiset(),
        forall|i: int, j: int|
            0 <= i < j < plan_order(ms).len() ==> module_rank(#[trigger] plan_order(ms)[i]) <= module_rank(
                #[trigger] plan_order(ms)[j],
            ),
{
    broadcast use vstd::seq_lib::group_to_multiset_ensures;
    let p = plan_order(ms);
    assert forall|m: ModuleId| #[trigger] p.to_multiset().count(m) == ms.to_multiset().count(m) by {
        lemma_of_rank_count(ms, m);
        lemma_rank_le_4(m);
        vstd::seq_lib::lemma_multiset_commutative(of_rank(ms, 0), of_rank(ms, 1));
        let a = of_rank(ms, 0) + of_rank(ms, 1);
        vstd::seq_lib::lemma_multiset_commutative(a, of_rank(ms, 2));
        let b = a + of_rank(ms, 2);
        vstd::seq_lib::lemma_multiset_commutative(b, of_rank(ms, 3));
        let c = b + of_rank(ms, 3);
        vstd::seq_lib::lemma_multiset_commutative(c, of_rank(ms, 4));
    }
    assert(p.to_multiset() =~= ms.to_multiset());
    assert forall|i: int, j: int| 0 <= i < j < p.len() implies module_rank(#[trigger] p[i]) <= module_rank(
        #[trigger] p[j],
    ) by {
        lemma_bucket_rank(ms, 0);
        lemma_bucket_rank(ms, 1);
        lemma_bucket_rank(ms, 2);
        lemma_bucket_rank(ms, 3);
        lemma_bucket_rank(ms, 4);
        let l0 = of_rank(ms, 0).len() as int;
        let l1 = l0 + of_rank(ms, 1).len();
        let l2 = l1 + of_rank(ms, 2).len();
        let l3 = l2 + of_rank(ms, 3).len();
        assert(forall|x: int| 0 <= x < l0 ==> module_rank(p[x]) == 0 && p[x] == of_rank(ms, 0)[x]);
        assert(forall|x: int| l0 <= x < l1 ==> p[x] == of_rank(ms, 1)[x - l0]);
        assert(forall|x: int| l1 <= x < l2 ==> p[x] == of_rank(ms, 2)[x - l1]);
        assert(forall|x: int| l2 <= x < l3 ==> p[x] == of_rank(ms, 3)[x - l2]);
        assert(forall|x: int| l3 <= x < p.len() ==> p[x] == of_rank(ms, 4)[x - l3]);
    }
}

/// Every module in bucket `k` has rank `k`.
proof fn lemma_bucket_rank(ms: Seq<ModuleId>, k: u8)
    ensures
        forall|i: int| 0 <= i < of_rank(ms, k).len() ==> module_rank(#[trigger] of_rank(ms, k)[i]) == k,
    decreases ms.len(),
{
    if ms.len() > 0 {
        lemma_bucket_rank(ms.drop_last(), k);
        let front = of_rank(ms.drop_last(), k);
        assert forall|i: int| 0 <= i < of_rank(ms, k).len() implies module_rank(#[trigger] of_rank(ms, k)[i]) == k by {
            if i < front.len() {
                assert(of_rank(ms, k)[i] == front[i]);
            }
        }
    }
}

} // verus!
