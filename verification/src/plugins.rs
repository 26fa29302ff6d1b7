//! The registry of optional field modules.
use vstd::prelude::*;
use crate::text::{chars_of, chars_eq};

verus! {

/// One optional module and whether this build carries it.
#[derive(Debug, Clone, Copy)]
pub struct PluginInfo {
    pub name: &'static str,
    pub version: &'static str,
    pub description: &'static str,
    pub enabled: bool,
    pub feature_flag: &'static str,
}

/// The optional modules known to the service.
pub struct PluginRegistry {
    plugins: Vec<PluginInfo>,
}

pub open spec fn plugin_names() -> Seq<Seq<char>> {
    seq!["k9"@, "water"@, "drone"@, "maritime"@, "cave"@, "alpine"@]
}

/// The modules a list of references points at.
pub open spec fn derefs(s: Seq<&PluginInfo>) -> Seq<PluginInfo> {
    s.map_values(|p: &PluginInfo| *p)
}

/// The registered modules that are enabled, in registration order.
pub open spec fn enabled_of(ps: Seq<PluginInfo>) -> Seq<PluginInfo>
    decreases ps.len(),
{
    if ps.len() == 0 {
        Seq::empty()
    } else {
        let prev = enabled_of(ps.drop_last());
        if ps.last().enabled {
            prev.push(ps.last())
        } else {
            prev
        }
    }
}

/// The module registered under `name` is enabled (the first one, where names repeat).
pub open spec fn enabled_by_name(ps: Seq<PluginInfo>, name: Seq<char>) -> bool {
    exists|i: int|
        0 <= i < ps.len() && ps[i].name@ == name && ps[i].enabled && forall|j: int|
            0 <= j < i ==> ps[j].name@ != name
}

/// No two modules share a name.
pub open spec fn names_distinct(ps: Seq<PluginInfo>) -> bool {
    forall|i: int, j: int| 0 <= i < j < ps.len() ==> (#[trigger] ps[i]).name@ != (#[trigger] ps[j]).name@
}

/// Some enabled module carries `name`.
pub open spec fn enabled_named(ps: Seq<PluginInfo>, name: Seq<char>) -> bool {
    exists|k: int| 0 <= k < enabled_of(ps).len() && (#[trigger] enabled_of(ps)[k]).name@ == name
}

/// Each enabled module is a registered module that is enabled: the position
/// it is registered at.
proof fn lemma_enabled_source(ps: Seq<PluginInfo>, k: int) -> (i: int)
    requires
        0 <= k < enabled_of(ps).len(),
    ensures
        0 <= i < ps.len(),
        ps[i] == enabled_of(ps)[k],
        ps[i].enabled,
    decreases ps.len(),
{
    let pre = ps.drop_last();
    if k < enabled_of(pre).len() {
        let i = lemma_enabled_source(pre, k);
        assert(ps[i] == pre[i]);
        i
    } else {
        (ps.len() - 1) as int
    }
}

/// Each registered module that is enabled is among the enabled modules: the
/// position it is listed at.
proof fn lemma_enabled_complete(ps: Seq<PluginInfo>, i: int) -> (k: int)
    requires
        0 <= i < ps.len(),
        ps[i].enabled,
    ensures
        0 <= k < enabled_of(ps).len(),
        enabled_of(ps)[k] == ps[i],
    decreases ps.len(),
{
    let pre = ps.drop_last();
    if i < ps.len() - 1 {
        assert(pre[i] == ps[i]);
        lemma_enabled_complete(pre, i)
    } else {
        (enabled_of(ps).len() - 1) as int
    }
}

/// Where names are distinct, the module under `name` is enabled exactly when
/// `name` is among the enabled modules.
proof fn lemma_enabled_by_name_iff(ps: Seq<PluginInfo>, name: Seq<char>)
    requires
        names_distinct(ps),
    ensures
        enabled_by_name(ps, name) == enabled_named(ps, name),
{
    if enabled_named(ps, name) {
        let k = choose|k: int| 0 <= k < enabled_of(ps).len() && (#[trigger] enabled_of(ps)[k]).name@ == name;
        let i = lemma_enabled_source(ps, k);
        assert forall|j: int| 0 <= j < i implies ps[j].name@ != name by {
            assert(ps[j].name@ != ps[i].name@);
        }
        assert(enabled_by_name(ps, name));
    }
    if enabled_by_name(ps, name) {
        let i = choose|i: int|
            0 <= i < ps.len() && ps[i].name@ == name && ps[i].enabled && forall|j: int| 0 <= j < i ==> ps[j].name@ != name;
        let k = lemma_enabled_complete(ps, i);
        assert(enabled_of(ps)[k].name@ == name);
    }
}

fn plugin(name: &'static str, description: &'static str) -> (r: PluginInfo)
    ensures
        r.name == name,
        r.feature_flag == name,
        r.version@ == "1.0.0"@,
        r.description == description,
        !r.enabled,
{
    PluginInfo { name, version: "1.0.0", description, enabled: false, feature_flag: name }
}

impl PluginRegistry {
    pub closed spec fn view(&self) -> Seq<PluginInfo> {
        self.plugins@
    }

    /// Every registry keeps its module names distinct.
    #[verifier::type_invariant]
    spec fn names_unique(&self) -> bool {
        names_distinct(self.plugins@)
    }

    /// The six field modules. None of them is compiled into this build, so each
    /// is listed disabled; its feature flag carries its name.
    pub fn new() -> (r: PluginRegistry)
        ensures
            r.view().len() == 6,
            forall|i: int| 0 <= i < 6 ==> #[trigger] r.view()[i].name@ == plugin_names()[i]
                && r.view()[i].feature_flag@ == plugin_names()[i] && r.view()[i].version@ == "1.0.0"@
                && !r.view()[i].enabled,
            names_distinct(r.view()),
    {
        let mut plugins: Vec<PluginInfo> = Vec::new();
        plugins.push(plugin("k9", "Canine assistance module"));
        plugins.push(plugin("water", "Aquatic environment module"));
        plugins.push(plugin("drone", "Unmanned aerial vehicle module"));
        plugins.push(plugin("maritime", "Sea and ocean navigation module"));
        plugins.push(plugin("cave", "Subterranean exploration module"));
        plugins.push(plugin("alpine", "High altitude mountain module"));
        proof {
            reveal_strlit("k9");
            reveal_strlit("water");
            reveal_strlit("drone");
            reveal_strlit("maritime");
            reveal_strlit("cave");
            reveal_strlit("alpine");
            let ns = seq!["k9"@, "water"@, "drone"@, "maritime"@, "cave"@, "alpine"@];
            assert forall|i: int| 0 <= i < 6 implies (#[trigger] plugins@[i]).name@ == ns[i] by {}
            assert(ns[1][0] != ns[2][0]);
            assert forall|i: int, j: int| 0 <= i < j < 6 implies ns[i] != ns[j] by {
                if ns[i].len() == ns[j].len() {
                    assert(ns[i][0] != ns[j][0]);
                }
            }
            assert(names_distinct(plugins@));
        }
        PluginRegistry { plugins }
    }

    /// The enabled modules, in registration order.
    pub fn list_enabled(&self) -> (r: Vec<&PluginInfo>)
        ensures
            derefs(r@) == enabled_of(self.view()),
    {
        let mut out: Vec<&PluginInfo> = Vec::new();
        let mut i: usize = 0;
        while i < self.plugins.len()
            invariant
                i <= self.plugins.len(),
                derefs(out@) == enabled_of(self.plugins@.take(i as int)),
            decreases self.plugins.len() - i,
        {
            assert(self.plugins@.take(i + 1).drop_last() =~= self.plugins@.take(i as int));
            let p = &self.plugins[i];
            let ghost before = out@;
            if p.enabled {
                out.push(p);
                assert(derefs(out@) =~= derefs(before).push(*p));
            }
            i = i + 1;
        }
        assert(self.plugins@.take(self.plugins.len() as int) =~= self.plugins@);
        out
    }

    /// All modules, in registration order.
    pub fn list_all(&self) -> (r: Vec<&PluginInfo>)
        ensures
            derefs(r@) == self.view(),
    {
        let mut out: Vec<&PluginInfo> = Vec::new();
        let mut i: usize = 0;
        while i < self.plugins.len()
            invariant
                i <= self.plugins.len(),
                derefs(out@) == self.plugins@.take(i as int),
            decreases self.plugins.len() - i,
        {
            let ghost before = out@;
            out.push(&self.plugins[i]);
            assert(derefs(out@) =~= derefs(before).push(self.plugins@[i as int]));
            assert(self.plugins@.take(i + 1) =~= self.plugins@.take(i as int).push(self.plugins@[i as int]));
            i = i + 1;
        }
        assert(self.plugins@.take(self.plugins.len() as int) =~= self.plugins@);
        out
    }

    /// Whether the module registered under `name` is enabled; `false` for an
    /// unknown name. Names being distinct, that is whether `name` is among the
    /// enabled modules.
    pub fn is_enabled(&self, name: &str) -> (r: bool)
        ensures
            r == enabled_by_name(self.view(), name@),
            names_distinct(self.view()),
            r == enabled_named(self.view(), name@),
    {
        proof {
            use_type_invariant(self);
            lemma_enabled_by_name_iff(self.plugins@, name@);
        }
        let want = chars_of(name);
        let mut i: usize = 0;
        while i < self.plugins.len()
            invariant
                i <= self.plugins.len(),
                want@ == name@,
                names_distinct(self.plugins@),
                enabled_by_name(self.plugins@, name@) == enabled_named(self.plugins@, name@),
                forall|j: int| 0 <= j < i ==> self.plugins@[j].name@ != name@,
            decreases self.plugins.len() - i,
        {
            let n = chars_of(self.plugins[i].name);
            if chars_eq(&n, &want) {
                let e = self.plugins[i].enabled;
                proof {
                    if !e {
                        assert forall|k: int|
                            !(0 <= k < self.plugins@.len() && self.plugins@[k].name@ == name@
                                && self.plugins@[k].enabled && forall|j: int|
                                0 <= j < k ==> self.plugins@[j].name@ != name@) by {
                            if 0 <= k < self.plugins@.len() && self.plugins@[k].name@ == name@ && forall|j: int|
                                0 <= j < k ==> self.plugins@[j].name@ != name@ {
                                if k > i {
                                    assert(self.plugins@[i as int].name@ != name@);
                                }
                            }
                        }
                    }
                }
                return e;
            }
            i = i + 1;
        }
        false
    }
}

} // verus!
