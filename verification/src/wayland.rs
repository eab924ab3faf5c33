//! The scan of a Wayland registry that finds the globals needed to let mouse
//! input pass through the overlay window.

use vstd::prelude::*;

verus! {

/// The interface name of the compositor global.
pub open spec fn compositor_interface() -> Seq<char> {
    seq!['w', 'l', '_', 'c', 'o', 'm', 'p', 'o', 's', 'i', 't', 'o', 'r']
}

/// The interface name of the layer-shell global.
pub open spec fn layer_shell_interface() -> Seq<char> {
    seq![
        'z', 'w', 'l', 'r', '_', 'l', 'a', 'y', 'e', 'r', '_', 's', 'h', 'e', 'l', 'l', '_', 'v', '1',
    ]
}

/// What the registry scan found: the compositor global and the layer-shell
/// global, each by name and version, with whether it was seen at all.
#[derive(Clone, Copy, Debug, PartialEq, Eq, Structural)]
pub struct WaylandRegionSettingState {
    pub initialized: bool,
    pub compositor_name: u32,
    pub compositor_version: u32,
    pub has_layer_shell: bool,
    pub zwlr_layer_shell_name: u32,
    pub zwlr_layer_shell_version: u32,
}

/// The scan state after the registry announces the global `name` of
/// `interface` in `version`: a compositor or a layer shell is recorded, any
/// other global leaves the state as it was.
pub open spec fn state_after_global(
    s: WaylandRegionSettingState,
    name: u32,
    interface: Seq<char>,
    version: u32,
) -> WaylandRegionSettingState {
    if interface == compositor_interface() {
        WaylandRegionSettingState {
            initialized: true,
            compositor_name: name,
            compositor_version: version,
            ..s
        }
    } else if interface == layer_shell_interface() {
        WaylandRegionSettingState {
            has_layer_shell: true,
            zwlr_layer_shell_name: name,
            zwlr_layer_shell_version: version,
            ..s
        }
    } else {
        s
    }
}

/// The scan state after the globals `g` are announced in order.
pub open spec fn state_after_globals(
    s: WaylandRegionSettingState,
    g: Seq<(u32, Seq<char>, u32)>,
) -> WaylandRegionSettingState
    decreases g.len(),
{
    if g.len() == 0 {
        s
    } else {
        let prev = state_after_globals(s, g.drop_last());
        state_after_global(prev, g.last().0, g.last().1, g.last().2)
    }
}

impl WaylandRegionSettingState {
    /// The state before the scan: nothing found.
    pub fn new() -> (res: Self)
        ensures
            !res.initialized,
            !res.has_layer_shell,
            res.compositor_name == 0 && res.compositor_version == 0,
            res.zwlr_layer_shell_name == 0 && res.zwlr_layer_shell_version == 0,
    {
        WaylandRegionSettingState {
            initialized: false,
            compositor_name: 0,
            compositor_version: 0,
            has_layer_shell: false,
            zwlr_layer_shell_name: 0,
            zwlr_layer_shell_version: 0,
        }
    }

    /// Handles the registry's announcement of the global `name` of
    /// `interface` in `version`.
    pub fn on_global(&mut self, name: u32, interface: &str, version: u32)
        ensures
            *final(self) == state_after_global(*old(self), name, interface@, version),
    {
        let interface = String::from_str(interface);
        let compositor = String::from_str("wl_compositor");
        let layer_shell = String::from_str("zwlr_layer_shell_v1");
        proof {
            reveal_strlit("wl_compositor");
            reveal_strlit("zwlr_layer_shell_v1");
            assert(compositor@ =~= compositor_interface());
            assert(layer_shell@ =~= layer_shell_interface());
        }
        if interface == compositor {
            self.compositor_name = name;
            self.compositor_version = version;
            self.initialized = true;
        }
        if interface == layer_shell {
            self.zwlr_layer_shell_name = name;
            self.zwlr_layer_shell_version = version;
            self.has_layer_shell = true;
        }
    }
}

/// Whether the global `g[i]` is the last of `g` that announces `interface`.
pub open spec fn last_announcement(g: Seq<(u32, Seq<char>, u32)>, i: int, interface: Seq<char>) -> bool {
    &&& 0 <= i < g.len()
    &&& g[i].1 == interface
    &&& forall|j: int| i < j < g.len() ==> (#[trigger] g[j]).1 != interface
}

/// Whether some global of `g` announces `interface`.
pub open spec fn announces(g: Seq<(u32, Seq<char>, u32)>, interface: Seq<char>) -> bool {
    exists|i: int| 0 <= i < g.len() && (#[trigger] g[i]).1 == interface
}

/// A scan finds the compositor exactly when some announced global is the
/// compositor (or it had been found before), and then holds the name and
/// version of the last such global; likewise for the layer shell.
pub proof fn law_scan_records_last_announcement(
    s: WaylandRegionSettingState,
    g: Seq<(u32, Seq<char>, u32)>,
)
    ensures
        state_after_globals(s, g).initialized <==> (s.initialized || announces(g, compositor_interface())),
        state_after_globals(s, g).has_layer_shell <==> (s.has_layer_shell || announces(g, layer_shell_interface())),
        forall|i: int| #[trigger] last_announcement(g, i, compositor_interface()) ==> {
            &&& state_after_globals(s, g).compositor_name == g[i].0
            &&& state_after_globals(s, g).compositor_version == g[i].2
        },
        forall|i: int| #[trigger] last_announcement(g, i, layer_shell_interface()) ==> {
            &&& state_after_globals(s, g).zwlr_layer_shell_name == g[i].0
            &&& state_after_globals(s, g).zwlr_layer_shell_version == g[i].2
        },
{
    lemma_found_iff_announced(s, g);
    assert forall|i: int| #[trigger] last_announcement(g, i, compositor_interface()) implies {
        &&& state_after_globals(s, g).compositor_name == g[i].0
        &&& state_after_globals(s, g).compositor_version == g[i].2
    } by {
        lemma_last_compositor(s, g, i);
    }
    assert forall|i: int| #[trigger] last_announcement(g, i, layer_shell_interface()) implies {
        &&& state_after_globals(s, g).zwlr_layer_shell_name == g[i].0
        &&& state_after_globals(s, g).zwlr_layer_shell_version == g[i].2
    } by {
        lemma_last_layer_shell(s, g, i);
    }
}

proof fn lemma_interfaces_differ()
    ensures
        compositor_interface() != layer_shell_interface(),
{
    assert(compositor_interface().len() != layer_shell_interface().len());
}

proof fn lemma_announces_prefix(g: Seq<(u32, Seq<char>, u32)>, interface: Seq<char>)
    requires
        g.len() > 0,
    ensures
        announces(g, interface) <==> (announces(g.drop_last(), interface) || g.last().1 == interface),
{
    let g0 = g.drop_last();
    if announces(g0, interface) {
        let i = choose|i: int| 0 <= i < g0.len() && (#[trigger] g0[i]).1 == interface;
        assert(g[i] == g0[i]);
    }
    if announces(g, interface) {
        let i = choose|i: int| 0 <= i < g.len() && (#[trigger] g[i]).1 == interface;
        if i < g0.len() {
            assert(g0[i] == g[i]);
        }
    }
    if g.last().1 == interface {
        assert(g[g.len() - 1].1 == interface);
    }
}

proof fn lemma_found_iff_announced(s: WaylandRegionSettingState, g: Seq<(u32, Seq<char>, u32)>)
    ensures
        state_after_globals(s, g).initialized <==> (s.initialized || announces(g, compositor_interface())),
        state_after_globals(s, g).has_layer_shell <==> (s.has_layer_shell || announces(g, layer_shell_interface())),
    decreases g.len(),
{
    if g.len() > 0 {
        lemma_found_iff_announced(s, g.drop_last());
        lemma_announces_prefix(g, compositor_interface());
        lemma_announces_prefix(g, layer_shell_interface());
        lemma_interfaces_differ();
    }
}

proof fn lemma_last_compositor(s: WaylandRegionSettingState, g: Seq<(u32, Seq<char>, u32)>, i: int)
    requires
        last_announcement(g, i, compositor_interface()),
    ensures
        state_after_globals(s, g).compositor_name == g[i].0,
        state_after_globals(s, g).compositor_version == g[i].2,
    decreases g.len(),
{
    lemma_interfaces_differ();
    if i < g.len() - 1 {
        let g0 = g.drop_last();
        assert(g[g.len() - 1].1 != compositor_interface());
        assert forall|j: int| i < j < g0.len() implies (#[trigger] g0[j]).1 != compositor_interface() by {
            assert(g[j].1 != compositor_interface());
        }
        assert(g0[i] == g[i]);
        lemma_last_compositor(s, g0, i);
    }
}

proof fn lemma_last_layer_shell(s: WaylandRegionSettingState, g: Seq<(u32, Seq<char>, u32)>, i: int)
    requires
        last_announcement(g, i, layer_shell_interface()),
    ensures
        state_after_globals(s, g).zwlr_layer_shell_name == g[i].0,
        state_after_globals(s, g).zwlr_layer_shell_version == g[i].2,
    decreases g.len(),
{
    lemma_interfaces_differ();
    if i < g.len() - 1 {
        let g0 = g.drop_last();
        assert(g[g.len() - 1].1 != layer_shell_interface());
        assert forall|j: int| i < j < g0.len() implies (#[trigger] g0[j]).1 != layer_shell_interface() by {
            assert(g[j].1 != layer_shell_interface());
        }
        assert(g0[i] == g[i]);
        lemma_last_layer_shell(s, g0, i);
    }
}

} // verus!
