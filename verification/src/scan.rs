//! Remote-scan reconciliation, free of SSH side effects.
//!
//! [`plan_scan`] updates presence, labels and missing counters of the local
//! tunnels and returns the enable / cancel / discover actions that the caller
//! should apply through the SSH control socket.

use vstd::prelude::*;

use crate::ports::{
    copy_listener, copy_tunnel, listener_views, new_tunnel, opt_text, tunnel_views, Direction,
    ListenerView, RemoteListener, Tunnel, TunnelView,
};

verus! {

/// Consecutive successful scans a remote listener must be absent from before
/// its local tunnel is considered down and any active forward is cancelled.
pub const MISSING_THRESHOLD: u8 = 2;

/// What the next SSH operations should be, without performing them.
#[derive(Clone, Debug, PartialEq, Eq)]
pub enum ScanAction {
    /// Auto-enable the existing local tunnel at this index.
    Enable(usize),
    /// Cancel the active forward of the tunnel at this index.
    Cancel { index: usize, bind: u16, source: u16 },
    /// Append a newly discovered remote listener (switched on when `enable`).
    Discover { tunnel: Tunnel, enable: bool },
}

/// A scan action as plain values.
pub enum ActionView {
    Enable(usize),
    Cancel { index: usize, bind: u16, source: u16 },
    Discover { tunnel: TunnelView, enable: bool },
}

impl View for ScanAction {
    type V = ActionView;

    open spec fn view(&self) -> ActionView {
        match self {
            ScanAction::Enable(i) => ActionView::Enable(*i),
            ScanAction::Cancel { index, bind, source } => ActionView::Cancel {
                index: *index,
                bind: *bind,
                source: *source,
            },
            ScanAction::Discover { tunnel, enable } => ActionView::Discover {
                tunnel: tunnel@,
                enable: *enable,
            },
        }
    }
}

/// The views of a list of actions.
pub open spec fn action_views(a: Seq<ScanAction>) -> Seq<ActionView> {
    a.map_values(|x: ScanAction| x@)
}

// ---------------------------------------------------------------------------
// What a scan means for each tunnel
// ---------------------------------------------------------------------------

/// The first listener on `port`, if any.
pub open spec fn first_listener(found: Seq<ListenerView>, port: u16) -> Option<ListenerView>
    decreases found.len(),
{
    if found.len() == 0 {
        None
    } else if found[0].port == port {
        Some(found[0])
    } else {
        first_listener(found.drop_first(), port)
    }
}

/// An empty label takes a non-empty process name; any other label stays.
pub open spec fn auto_label(label: Seq<char>, process: Option<Seq<char>>) -> Seq<char> {
    match process {
        Some(p) => if label.len() == 0 && p.len() > 0 {
            p
        } else {
            label
        },
        None => label,
    }
}

/// `m + 1`, stopping at 255.
pub open spec fn saturating_inc(m: u8) -> u8 {
    if m < 255 {
        (m + 1) as u8
    } else {
        255
    }
}

/// A tunnel after a scan reported `found`: a local tunnel whose port is
/// listed is present again with its counter reset (and may take the process
/// name as label); one that is not listed counts one more miss, and is no
/// longer present once the misses reach the threshold. Reverse tunnels are
/// left alone.
pub open spec fn scanned(t: TunnelView, found: Seq<ListenerView>) -> TunnelView {
    if t.direction != Direction::Local {
        t
    } else {
        match first_listener(found, t.source_port) {
            Some(l) => TunnelView {
                present: true,
                missing_scans: 0,
                label: auto_label(t.label, l.process),
                ..t
            },
            None => {
                let m = saturating_inc(t.missing_scans);
                TunnelView {
                    missing_scans: m,
                    present: if m >= MISSING_THRESHOLD {
                        false
                    } else {
                        t.present
                    },
                    ..t
                }
            },
        }
    }
}

/// Every tunnel after the scan.
pub open spec fn scanned_all(ts: Seq<TunnelView>, found: Seq<ListenerView>) -> Seq<TunnelView> {
    Seq::new(ts.len(), |i: int| scanned(ts[i], found))
}

/// The action a scan asks for on the tunnel at `index`: enable a listed local
/// tunnel that is off and not turned off by hand, when auto-forwarding; cancel
/// the forward of one that has now reached the threshold of misses.
pub open spec fn tunnel_action(index: int, t: TunnelView, found: Seq<ListenerView>, auto_forward: bool) -> Option<ActionView> {
    if t.direction != Direction::Local {
        None
    } else {
        match first_listener(found, t.source_port) {
            Some(_) => if auto_forward && !t.enabled && !t.manual_off {
                Some(ActionView::Enable(index as usize))
            } else {
                None
            },
            None => if saturating_inc(t.missing_scans) >= MISSING_THRESHOLD && t.enabled {
                Some(
                    ActionView::Cancel {
                        index: index as usize,
                        bind: t.bind_port->0,
                        source: t.source_port,
                    },
                )
            } else {
                None
            },
        }
    }
}

/// The actions on existing tunnels, in index order.
pub open spec fn index_actions(ts: Seq<TunnelView>, found: Seq<ListenerView>, auto_forward: bool) -> Seq<ActionView>
    decreases ts.len(),
{
    if ts.len() == 0 {
        seq![]
    } else {
        let earlier = index_actions(ts.drop_last(), found, auto_forward);
        match tunnel_action(ts.len() - 1, ts.last(), found, auto_forward) {
            Some(a) => earlier.push(a),
            None => earlier,
        }
    }
}

/// Whether some local tunnel forwards `port`.
pub open spec fn has_local(ts: Seq<TunnelView>, port: u16) -> bool {
    exists|i: int| 0 <= i < ts.len() && #[trigger] local_on(ts[i], port)
}

/// Whether `t` is a local tunnel of `port`.
pub open spec fn local_on(t: TunnelView, port: u16) -> bool {
    t.direction == Direction::Local && t.source_port == port
}

/// The tunnel made for a newly discovered listener.
pub open spec fn listener_tunnel(l: ListenerView) -> TunnelView {
    new_tunnel(
        Direction::Local,
        l.port,
        l.port,
        match l.process {
            Some(p) => p,
            None => seq![],
        },
        true,
    )
}

/// One discover action per listed listener that no local tunnel forwards,
/// in the order of `found`.
pub open spec fn discover_actions(ts: Seq<TunnelView>, found: Seq<ListenerView>, auto_forward: bool) -> Seq<ActionView>
    decreases found.len(),
{
    if found.len() == 0 {
        seq![]
    } else {
        let earlier = discover_actions(ts, found.drop_last(), auto_forward);
        let l = found.last();
        if has_local(ts, l.port) {
            earlier
        } else {
            earlier.push(ActionView::Discover { tunnel: listener_tunnel(l), enable: auto_forward })
        }
    }
}

/// All actions a scan asks for: those on existing tunnels, then discoveries.
pub open spec fn plan_actions(ts: Seq<TunnelView>, found: Seq<ListenerView>, auto_forward: bool) -> Seq<ActionView> {
    index_actions(ts, found, auto_forward) + discover_actions(ts, found, auto_forward)
}

/// The input on which planning would find an enabled tunnel without a
/// listening port to cancel.
pub open spec fn scan_panics(t: TunnelView, found: Seq<ListenerView>) -> bool {
    &&& t.direction == Direction::Local
    &&& first_listener(found, t.source_port) is None
    &&& saturating_inc(t.missing_scans) >= MISSING_THRESHOLD
    &&& t.enabled
    &&& t.bind_port is None
}

/// Whether every enabled tunnel has a listening port.
pub open spec fn bound_when_enabled(t: TunnelView) -> bool {
    t.enabled ==> t.bind_port is Some
}

// ---------------------------------------------------------------------------
// Applying actions without SSH
// ---------------------------------------------------------------------------

/// A tunnel switched on in memory, listening on its requested port.
pub open spec fn enabled_in_memory(t: TunnelView) -> TunnelView {
    TunnelView { enabled: true, bind_port: Some(t.requested_port), error: None, ..t }
}

/// The tunnel a discover action appends.
pub open spec fn arriving(a: ActionView) -> TunnelView {
    match a {
        ActionView::Discover { tunnel, enable } => if enable {
            TunnelView { enabled: true, bind_port: Some(tunnel.requested_port), ..tunnel }
        } else {
            tunnel
        },
        _ => new_tunnel(Direction::Local, 0, 0, seq![], false),
    }
}

/// One action applied in memory.
pub open spec fn apply_action(ts: Seq<TunnelView>, a: ActionView) -> Seq<TunnelView> {
    match a {
        ActionView::Enable(i) => if i < ts.len() {
            ts.update(i as int, enabled_in_memory(ts[i as int]))
        } else {
            ts
        },
        ActionView::Cancel { index, .. } => if index < ts.len() {
            ts.update(index as int, TunnelView { enabled: false, ..ts[index as int] })
        } else {
            ts
        },
        ActionView::Discover { .. } => ts.push(arriving(a)),
    }
}

/// Actions applied in memory, in order.
pub open spec fn apply_all(ts: Seq<TunnelView>, acts: Seq<ActionView>) -> Seq<TunnelView>
    decreases acts.len(),
{
    if acts.len() == 0 {
        ts
    } else {
        apply_action(apply_all(ts, acts.drop_last()), acts.last())
    }
}

/// An existing tunnel after a scan applied in memory.
pub open spec fn in_memory(t: TunnelView, index: int, found: Seq<ListenerView>, auto_forward: bool) -> TunnelView {
    let s = scanned(t, found);
    match tunnel_action(index, t, found, auto_forward) {
        Some(ActionView::Enable(_)) => enabled_in_memory(s),
        Some(ActionView::Cancel { .. }) => TunnelView { enabled: false, ..s },
        _ => s,
    }
}

/// The tunnels after a scan applied in memory: each existing tunnel updated
/// in place, then one new tunnel per discovered listener.
pub open spec fn memory_result(ts: Seq<TunnelView>, found: Seq<ListenerView>, auto_forward: bool) -> Seq<TunnelView> {
    Seq::new(ts.len(), |i: int| in_memory(ts[i], i, found, auto_forward)) + discover_actions(
        ts,
        found,
        auto_forward,
    ).map_values(|a: ActionView| arriving(a))
}

// ---------------------------------------------------------------------------
// Lemmas
// ---------------------------------------------------------------------------

proof fn lemma_first_listener(found: Seq<ListenerView>, port: u16, k: int)
    requires
        0 <= k <= found.len(),
        forall|j: int| 0 <= j < k ==> found[j].port != port,
    ensures
        k < found.len() && found[k].port == port ==> first_listener(found, port) == Some(found[k]),
        k == found.len() ==> first_listener(found, port) is None,
    decreases k,
{
    if k > 0 {
        lemma_first_listener(found.drop_first(), port, k - 1);
    }
}

proof fn lemma_index_actions_bounds(ts: Seq<TunnelView>, found: Seq<ListenerView>, auto_forward: bool)
    ensures
        forall|k: int| 0 <= k < index_actions(ts, found, auto_forward).len() ==> match #[trigger] index_actions(ts, found, auto_forward)[k] {
            ActionView::Enable(i) => i < ts.len(),
            ActionView::Cancel { index, .. } => index < ts.len(),
            ActionView::Discover { .. } => false,
        },
    decreases ts.len(),
{
    if ts.len() > 0 {
        lemma_index_actions_bounds(ts.drop_last(), found, auto_forward);
    }
}

proof fn lemma_discover_only(ts: Seq<TunnelView>, found: Seq<ListenerView>, auto_forward: bool)
    ensures
        forall|k: int| 0 <= k < discover_actions(ts, found, auto_forward).len() ==> (#[trigger] discover_actions(ts, found, auto_forward)[k]) is Discover,
    decreases found.len(),
{
    if found.len() > 0 {
        lemma_discover_only(ts, found.drop_last(), auto_forward);
    }
}

proof fn lemma_apply_all_push(ts: Seq<TunnelView>, a: Seq<ActionView>, b: ActionView)
    ensures
        apply_all(ts, a.push(b)) == apply_action(apply_all(ts, a), b),
{
    assert(a.push(b).drop_last() == a);
}

proof fn lemma_apply_all_len(ts: Seq<TunnelView>, a: Seq<ActionView>)
    ensures
        apply_all(ts, a).len() >= ts.len(),
    decreases a.len(),
{
    if a.len() > 0 {
        lemma_apply_all_len(ts, a.drop_last());
    }
}

proof fn lemma_index_phase(ts: Seq<TunnelView>, found: Seq<ListenerView>, auto_forward: bool, m: int)
    requires
        0 <= m <= ts.len(),
        ts.len() <= usize::MAX,
    ensures
        apply_all(scanned_all(ts, found), index_actions(ts.take(m), found, auto_forward)) == Seq::new(
            ts.len(),
            |i: int| if i < m {
                in_memory(ts[i], i, found, auto_forward)
            } else {
                scanned(ts[i], found)
            },
        ),
    decreases m,
{
    let s = scanned_all(ts, found);
    if m == 0 {
        assert(index_actions(ts.take(0), found, auto_forward) == Seq::<ActionView>::empty());
        assert(s =~= Seq::new(
            ts.len(),
            |i: int| if i < 0 {
                in_memory(ts[i], i, found, auto_forward)
            } else {
                scanned(ts[i], found)
            },
        ));
    } else {
        lemma_index_phase(ts, found, auto_forward, m - 1);
        let prev = Seq::new(
            ts.len(),
            |i: int| if i < m - 1 {
                in_memory(ts[i], i, found, auto_forward)
            } else {
                scanned(ts[i], found)
            },
        );
        let next = Seq::new(
            ts.len(),
            |i: int| if i < m {
                in_memory(ts[i], i, found, auto_forward)
            } else {
                scanned(ts[i], found)
            },
        );
        let tm = ts.take(m);
        assert(tm.drop_last() == ts.take(m - 1));
        assert(tm.last() == ts[m - 1]);
        let base = index_actions(ts.take(m - 1), found, auto_forward);
        match tunnel_action(m - 1, ts[m - 1], found, auto_forward) {
            Some(a) => {
                assert(index_actions(tm, found, auto_forward) == base.push(a));
                lemma_apply_all_push(s, base, a);
                match a {
                    ActionView::Enable(i) => {
                        assert(i == m - 1);
                    },
                    ActionView::Cancel { index, .. } => {
                        assert(index == m - 1);
                    },
                    _ => {},
                }
                assert(apply_action(prev, a) =~= next);
            },
            None => {
                assert(index_actions(tm, found, auto_forward) == base);
                assert(prev =~= next);
            },
        }
    }
}

proof fn lemma_discover_phase(x: Seq<TunnelView>, pre: Seq<ActionView>, ts: Seq<TunnelView>, found: Seq<ListenerView>, auto_forward: bool)
    ensures
        apply_all(x, pre + discover_actions(ts, found, auto_forward)) == apply_all(x, pre)
            + discover_actions(ts, found, auto_forward).map_values(|a: ActionView| arriving(a)),
    decreases found.len(),
{
    let d = discover_actions(ts, found, auto_forward);
    if found.len() == 0 {
        assert(pre + d == pre);
        assert(apply_all(x, pre) + d.map_values(|a: ActionView| arriving(a)) == apply_all(x, pre));
    } else {
        lemma_discover_phase(x, pre, ts, found.drop_last(), auto_forward);
        let e = discover_actions(ts, found.drop_last(), auto_forward);
        let l = found.last();
        if has_local(ts, l.port) {
            assert(d == e);
        } else {
            let a = ActionView::Discover { tunnel: listener_tunnel(l), enable: auto_forward };
            assert(d == e.push(a));
            assert(pre + d == (pre + e).push(a));
            lemma_apply_all_push(x, pre + e, a);
            assert(d.map_values(|a: ActionView| arriving(a)) =~= e.map_values(
                |a: ActionView| arriving(a),
            ).push(arriving(a)));
            assert(apply_all(x, pre + d) =~= apply_all(x, pre) + d.map_values(
                |a: ActionView| arriving(a),
            ));
        }
    }
}

proof fn lemma_memory_result(ts: Seq<TunnelView>, found: Seq<ListenerView>, auto_forward: bool)
    requires
        ts.len() <= usize::MAX,
    ensures
        apply_all(scanned_all(ts, found), plan_actions(ts, found, auto_forward)) == memory_result(
            ts,
            found,
            auto_forward,
        ),
{
    lemma_index_phase(ts, found, auto_forward, ts.len() as int);
    assert(ts.take(ts.len() as int) == ts);
    lemma_discover_phase(
        scanned_all(ts, found),
        index_actions(ts, found, auto_forward),
        ts,
        found,
        auto_forward,
    );
    assert(Seq::new(
        ts.len(),
        |i: int| if i < ts.len() {
            in_memory(ts[i], i, found, auto_forward)
        } else {
            scanned(ts[i], found)
        },
    ) =~= Seq::new(ts.len(), |i: int| in_memory(ts[i], i, found, auto_forward)));
}

// ---------------------------------------------------------------------------
// Executable functions
// ---------------------------------------------------------------------------

/// The index of the first listener on `port`.
fn find_listener(found: &[RemoteListener], port: u16) -> (r: Option<usize>)
    ensures
        match r {
            Some(k) => k < found@.len() && first_listener(listener_views(found@), port) == Some(
                found@[k as int]@,
            ),
            None => first_listener(listener_views(found@), port) is None,
        },
{
    let ghost fv = listener_views(found@);
    let mut k: usize = 0;
    while k < found.len()
        invariant
            k <= found@.len(),
            fv == listener_views(found@),
            forall|j: int| 0 <= j < k ==> fv[j].port != port,
        decreases found@.len() - k,
    {
        if found[k].port == port {
            proof {
                lemma_first_listener(fv, port, k as int);
            }
            return Some(k);
        }
        k = k + 1;
    }
    proof {
        lemma_first_listener(fv, port, k as int);
    }
    None
}

/// Whether some local tunnel forwards `port`.
fn has_local_tunnel(tunnels: &Vec<Tunnel>, port: u16) -> (b: bool)
    ensures
        b == has_local(tunnel_views(tunnels@), port),
{
    let ghost tv = tunnel_views(tunnels@);
    let mut i: usize = 0;
    while i < tunnels.len()
        invariant
            i <= tunnels@.len(),
            tv == tunnel_views(tunnels@),
            forall|j: int| 0 <= j < i ==> !local_on(tv[j], port),
        decreases tunnels@.len() - i,
    {
        if tunnels[i].direction == Direction::Local && tunnels[i].source_port == port {
            assert(local_on(tv[i as int], port));
            return true;
        }
        i = i + 1;
    }
    false
}

/// The tunnel made for a newly discovered listener, labelled with its process.
pub fn tunnel_from_listener(listener: RemoteListener) -> (t: Tunnel)
    ensures
        t@ == listener_tunnel(listener@),
{
    let mut tunnel = Tunnel::local(listener.port);
    match listener.process {
        Some(process) => {
            tunnel.label = process;
        },
        None => {},
    }
    tunnel
}

/// Give a tunnel without a label the process name, when there is one.
pub fn apply_auto_label(tunnel: &mut Tunnel, process: Option<&str>)
    ensures
        final(tunnel)@ == (TunnelView {
            label: auto_label(
                old(tunnel)@.label,
                match process {
                    Some(p) => Some(p@),
                    None => None,
                },
            ),
            ..old(tunnel)@
        }),
{
    match process {
        Some(p) => {
            if tunnel.label.as_str().is_empty() && !p.is_empty() {
                tunnel.label = p.to_owned();
            }
        },
        None => {},
    }
}

/// Whether planning a scan of `found` would meet an enabled tunnel without a
/// listening port to cancel (a state no other operation produces).
pub fn scan_would_fail(tunnels: &Vec<Tunnel>, found: &[RemoteListener]) -> (b: bool)
    ensures
        b == exists|i: int|
            0 <= i < tunnels@.len() && scan_panics(#[trigger] tunnels@[i]@, listener_views(found@)),
{
    let mut i: usize = 0;
    while i < tunnels.len()
        invariant
            i <= tunnels@.len(),
            forall|j: int| 0 <= j < i ==> !scan_panics(#[trigger] tunnels@[j]@, listener_views(found@)),
        decreases tunnels@.len() - i,
    {
        let t = &tunnels[i];
        if t.direction == Direction::Local && t.enabled && t.bind_port.is_none() {
            let missing: u8 = if t.missing_scans < 255 {
                t.missing_scans + 1
            } else {
                255
            };
            if missing >= MISSING_THRESHOLD && find_listener(found, t.source_port).is_none() {
                assert(scan_panics(tunnels@[i as int]@, listener_views(found@)));
                return true;
            }
        }
        i = i + 1;
    }
    false
}

/// Update local tunnel presence from a remote listener snapshot and return
/// the SSH actions that should follow.
///
/// - Local tunnels whose port is listed are present again; when
///   `auto_forward` is on and the tunnel is off and not turned off by hand,
///   it is queued for enabling.
/// - A listener must be missing for `MISSING_THRESHOLD` consecutive scans
///   before `present` turns false and an active forward is cancelled;
///   cancelling does not set `manual_off`.
/// - Tunnels turned off by hand are never auto-enabled.
/// - Listed ports without a local tunnel become discover actions, switched on
///   when auto-forwarding. Reverse tunnels are ignored by discovery.
pub fn plan_scan(tunnels: &mut Vec<Tunnel>, found: &[RemoteListener], auto_forward: bool) -> (actions: Vec<ScanAction>)
    requires
        forall|i: int| 0 <= i < old(tunnels)@.len() ==> !scan_panics(
            #[trigger] old(tunnels)@[i]@,
            listener_views(found@),
        ),
    ensures
        tunnel_views(final(tunnels)@) == scanned_all(tunnel_views(old(tunnels)@), listener_views(found@)),
        action_views(actions@) == plan_actions(tunnel_views(old(tunnels)@), listener_views(found@), auto_forward),
{
    let ghost fv = listener_views(found@);
    let ghost ov = tunnel_views(tunnels@);
    let ghost old_tunnels = tunnels@;
    let mut actions: Vec<ScanAction> = Vec::new();
    let n = tunnels.len();
    let mut index: usize = 0;
    while index < n
        invariant
            n == tunnels@.len(),
            n == old_tunnels.len(),
            index <= n,
            fv == listener_views(found@),
            ov == tunnel_views(old_tunnels),
            forall|i: int| 0 <= i < n ==> !scan_panics(#[trigger] old_tunnels[i]@, fv),
            forall|j: int| 0 <= j < index ==> (#[trigger] tunnels@[j])@ == scanned(ov[j], fv),
            forall|j: int| index <= j < n ==> #[trigger] tunnels@[j] == old_tunnels[j],
            action_views(actions@) == index_actions(ov.take(index as int), fv, auto_forward),
        decreases n - index,
    {
        let ghost before = action_views(actions@);
        assert(ov.take(index + 1).drop_last() == ov.take(index as int));
        assert(ov.take(index + 1).last() == ov[index as int]);
        assert(ov[index as int] == old_tunnels[index as int]@);
        assert(!scan_panics(old_tunnels[index as int]@, fv));
        let mut t = copy_tunnel(&tunnels[index]);
        if t.direction == Direction::Local {
            match find_listener(found, t.source_port) {
                Some(k) => {
                    t.present = true;
                    t.missing_scans = 0;
                    let process: Option<&str> = match &found[k].process {
                        Some(p) => Some(p.as_str()),
                        None => None,
                    };
                    assert(fv[k as int] == found@[k as int]@);
                    apply_auto_label(&mut t, process);
                    if auto_forward && !t.enabled && !t.manual_off {
                        actions.push(ScanAction::Enable(index));
                        assert(action_views(actions@) =~= before.push(ActionView::Enable(index)));
                    }
                },
                None => {
                    let m: u8 = if t.missing_scans < 255 {
                        t.missing_scans + 1
                    } else {
                        255
                    };
                    t.missing_scans = m;
                    if m >= MISSING_THRESHOLD {
                        t.present = false;
                        if t.enabled {
                            let bind = t.bind_port.unwrap();
                            let a = ScanAction::Cancel { index, bind, source: t.source_port };
                            actions.push(a);
                            assert(action_views(actions@) =~= before.push(a@));
                        }
                    }
                },
            }
        }
        tunnels[index] = t;
        index = index + 1;
    }
    assert(ov.take(n as int) == ov);
    assert(tunnel_views(tunnels@) =~= scanned_all(ov, fv));
    let ghost scanned_views = tunnel_views(tunnels@);
    let ghost after_index = action_views(actions@);
    let mut j: usize = 0;
    while j < found.len()
        invariant
            j <= found@.len(),
            fv == listener_views(found@),
            n == tunnels@.len(),
            scanned_views == tunnel_views(tunnels@),
            scanned_views == scanned_all(ov, fv),
            ov.len() == n,
            after_index == index_actions(ov, fv, auto_forward),
            action_views(actions@) == after_index + discover_actions(ov, fv.take(j as int), auto_forward),
        decreases found@.len() - j,
    {
        let ghost before = action_views(actions@);
        let ghost l = fv[j as int];
        assert(fv.take(j + 1).drop_last() == fv.take(j as int));
        assert(fv.take(j + 1).last() == l);
        assert(l == found@[j as int]@);
        let present = has_local_tunnel(tunnels, found[j].port);
        assert(present == has_local(ov, l.port)) by {
            if present {
                let i = choose|i: int| 0 <= i < scanned_views.len() && #[trigger] local_on(scanned_views[i], l.port);
                assert(local_on(ov[i], l.port));
            }
            if has_local(ov, l.port) {
                let i = choose|i: int| 0 <= i < ov.len() && #[trigger] local_on(ov[i], l.port);
                assert(local_on(scanned_views[i], l.port));
            }
        }
        if !present {
            let tunnel = tunnel_from_listener(copy_listener(&found[j]));
            let a = ScanAction::Discover { tunnel, enable: auto_forward };
            actions.push(a);
            assert(action_views(actions@) =~= before.push(a@));
            assert(after_index + discover_actions(ov, fv.take(j + 1), auto_forward) =~= before.push(a@));
        } else {
            assert(after_index + discover_actions(ov, fv.take(j + 1), auto_forward) == before);
        }
        j = j + 1;
    }
    assert(fv.take(found@.len() as int) == fv);
    actions
}

/// Plan a scan and apply it in memory: enabling and cancelling succeed at
/// once without SSH, and an enabled tunnel listens on its requested port.
pub fn apply_scan_in_memory(tunnels: &mut Vec<Tunnel>, found: &[RemoteListener], auto_forward: bool)
    requires
        forall|i: int| 0 <= i < old(tunnels)@.len() ==> !scan_panics(
            #[trigger] old(tunnels)@[i]@,
            listener_views(found@),
        ),
    ensures
        tunnel_views(final(tunnels)@) == memory_result(tunnel_views(old(tunnels)@), listener_views(found@), auto_forward),
{
    let ghost ov = tunnel_views(tunnels@);
    let ghost fv = listener_views(found@);
    let count = tunnels.len();
    assert(ov.len() == count);
    let actions = plan_scan(tunnels, found, auto_forward);
    let ghost s = tunnel_views(tunnels@);
    let ghost acts = action_views(actions@);
    let ghost n = ov.len();
    proof {
        lemma_index_actions_bounds(ov, fv, auto_forward);
        lemma_discover_only(ov, fv, auto_forward);
        assert forall|k: int| 0 <= k < acts.len() implies match #[trigger] acts[k] {
            ActionView::Enable(i) => i < n,
            ActionView::Cancel { index, .. } => index < n,
            ActionView::Discover { .. } => true,
        } by {
            let ia = index_actions(ov, fv, auto_forward);
            if k < ia.len() {
                assert(acts[k] == ia[k]);
            } else {
                assert(acts[k] == discover_actions(ov, fv, auto_forward)[k - ia.len()]);
            }
        }
    }
    let mut k: usize = 0;
    while k < actions.len()
        invariant
            k <= actions@.len(),
            acts == action_views(actions@),
            s.len() == n,
            tunnel_views(tunnels@) == apply_all(s, acts.take(k as int)),
            forall|k: int| 0 <= k < acts.len() ==> match #[trigger] acts[k] {
                ActionView::Enable(i) => i < n,
                ActionView::Cancel { index, .. } => index < n,
                ActionView::Discover { .. } => true,
            },
        decreases actions@.len() - k,
    {
        let ghost cur = tunnel_views(tunnels@);
        proof {
            lemma_apply_all_len(s, acts.take(k as int));
            lemma_apply_all_push(s, acts.take(k as int), acts[k as int]);
            assert(acts.take(k + 1) == acts.take(k as int).push(acts[k as int]));
        }
        let ghost a = acts[k as int];
        assert(a == actions@[k as int]@);
        match &actions[k] {
            ScanAction::Enable(index) => {
                let i = *index;
                let mut t = copy_tunnel(&tunnels[i]);
                t.enabled = true;
                t.bind_port = Some(t.requested_port);
                t.error = None;
                tunnels[i] = t;
                assert(tunnel_views(tunnels@) =~= apply_action(cur, a));
            },
            ScanAction::Cancel { index, .. } => {
                let i = *index;
                let mut t = copy_tunnel(&tunnels[i]);
                t.enabled = false;
                tunnels[i] = t;
                assert(tunnel_views(tunnels@) =~= apply_action(cur, a));
            },
            ScanAction::Discover { tunnel, enable } => {
                let mut t = copy_tunnel(tunnel);
                if *enable {
                    t.enabled = true;
                    t.bind_port = Some(t.requested_port);
                }
                tunnels.push(t);
                assert(tunnel_views(tunnels@) =~= apply_action(cur, a));
            },
        }
        k = k + 1;
    }
    assert(acts.take(actions@.len() as int) == acts);
    proof {
        lemma_memory_result(ov, fv, auto_forward);
    }
}


// ---------------------------------------------------------------------------
// Laws
// ---------------------------------------------------------------------------

/// Whether some listener in `found` is on `port`.
pub open spec fn lists_port(found: Seq<ListenerView>, port: u16) -> bool {
    exists|i: int| 0 <= i < found.len() && #[trigger] found[i].port == port
}

pub(crate) proof fn lemma_first_listener_lists(found: Seq<ListenerView>, port: u16)
    ensures
        first_listener(found, port) is None <==> !lists_port(found, port),
        first_listener(found, port) matches Some(l) ==> l.port == port,
    decreases found.len(),
{
    if found.len() > 0 {
        lemma_first_listener_lists(found.drop_first(), port);
        if found[0].port != port {
            if lists_port(found, port) {
                let i = choose|i: int| 0 <= i < found.len() && #[trigger] found[i].port == port;
                assert(found.drop_first()[i - 1].port == port);
            }
            if lists_port(found.drop_first(), port) {
                let i = choose|i: int| 0 <= i < found.drop_first().len() && #[trigger] found.drop_first()[i].port == port;
                assert(found[i + 1].port == port);
            }
        } else {
            assert(found[0].port == port);
        }
    }
}

/// A remote service must be missing from two consecutive scans before its
/// tunnel is taken down: after one miss only the counter changes and nothing
/// is cancelled; after the second the tunnel is no longer present, its
/// forward is cancelled, and it is not marked as turned off by hand.
pub proof fn two_missed_scans_take_target_down(
    t: TunnelView,
    index: int,
    first: Seq<ListenerView>,
    second: Seq<ListenerView>,
    auto_forward: bool,
)
    requires
        t.direction == Direction::Local,
        t.missing_scans == 0,
        !lists_port(first, t.source_port),
        !lists_port(second, t.source_port),
    ensures
        tunnel_action(index, t, first, auto_forward) is None,
        in_memory(t, index, first, auto_forward) == (TunnelView { missing_scans: 1, ..t }),
        ({
            let after = in_memory(in_memory(t, index, first, auto_forward), index, second, auto_forward);
            &&& !after.present
            &&& !after.enabled
            &&& after.manual_off == t.manual_off
            &&& after.missing_scans == 2
        }),
        t.enabled ==> tunnel_action(
            index,
            in_memory(t, index, first, auto_forward),
            second,
            auto_forward,
        ) matches Some(ActionView::Cancel { .. }),
{
    lemma_first_listener_lists(first, t.source_port);
    lemma_first_listener_lists(second, t.source_port);
}

/// A tunnel turned off by hand is never switched on by a scan, whether its
/// service stays up, goes away or comes back; and no scan clears the mark.
pub proof fn manual_off_is_never_auto_enabled(t: TunnelView, index: int, found: Seq<ListenerView>, auto_forward: bool)
    requires
        t.manual_off,
        !t.enabled,
    ensures
        !(tunnel_action(index, t, found, auto_forward) matches Some(ActionView::Enable(_))),
        !in_memory(t, index, found, auto_forward).enabled,
        in_memory(t, index, found, auto_forward).manual_off,
{
}

/// When a service listens again and auto-forwarding is on, a tunnel that was
/// not turned off by hand is forwarded again (including one whose forward a
/// scan cancelled, since cancelling never marks it as turned off).
pub proof fn returning_service_is_forwarded_again(t: TunnelView, index: int, found: Seq<ListenerView>)
    requires
        t.direction == Direction::Local,
        !t.manual_off,
        lists_port(found, t.source_port),
    ensures
        in_memory(t, index, found, true).enabled,
        in_memory(t, index, found, true).present,
        in_memory(t, index, found, true).missing_scans == 0,
        !t.enabled ==> in_memory(t, index, found, true).bind_port == Some(t.requested_port),
{
    lemma_first_listener_lists(found, t.source_port);
}

/// Scans never change whether a tunnel was turned off by hand.
pub proof fn scans_keep_manual_off(t: TunnelView, index: int, found: Seq<ListenerView>, auto_forward: bool)
    ensures
        scanned(t, found).manual_off == t.manual_off,
        in_memory(t, index, found, auto_forward).manual_off == t.manual_off,
{
}

/// Reverse tunnels are left alone by scans: no action names them and they
/// are not changed.
pub proof fn reverse_tunnels_are_untouched(t: TunnelView, index: int, found: Seq<ListenerView>, auto_forward: bool)
    requires
        t.direction == Direction::Reverse,
    ensures
        tunnel_action(index, t, found, auto_forward) is None,
        in_memory(t, index, found, auto_forward) == t,
{
}

proof fn lemma_discover_facts(ts: Seq<TunnelView>, found: Seq<ListenerView>, auto_forward: bool)
    ensures
        forall|k: int| 0 <= k < discover_actions(ts, found, auto_forward).len() ==> {
            let a = #[trigger] discover_actions(ts, found, auto_forward)[k];
            &&& a is Discover
            &&& a->Discover_enable == auto_forward
            &&& a->Discover_tunnel.direction == Direction::Local
            &&& a->Discover_tunnel.discovered
            &&& a->Discover_tunnel.present
            &&& !a->Discover_tunnel.enabled
            &&& a->Discover_tunnel.requested_port == a->Discover_tunnel.source_port
            &&& !has_local(ts, a->Discover_tunnel.source_port)
            &&& lists_port(found, a->Discover_tunnel.source_port)
        },
        forall|i: int| 0 <= i < found.len() && !has_local(ts, #[trigger] found[i].port) ==> exists|k: int|
            0 <= k < discover_actions(ts, found, auto_forward).len() && (#[trigger] discover_actions(ts, found, auto_forward)[k])->Discover_tunnel.source_port == found[i].port,
    decreases found.len(),
{
    if found.len() > 0 {
        let rest = found.drop_last();
        lemma_discover_facts(ts, rest, auto_forward);
        let e = discover_actions(ts, rest, auto_forward);
        let d = discover_actions(ts, found, auto_forward);
        assert forall|k: int| 0 <= k < e.len() implies lists_port(found, (#[trigger] e[k])->Discover_tunnel.source_port) by {
            let p = e[k]->Discover_tunnel.source_port;
            let i = choose|i: int| 0 <= i < rest.len() && #[trigger] rest[i].port == p;
            assert(found[i].port == p);
        }
        assert(found[found.len() - 1].port == found.last().port);
        assert forall|i: int| 0 <= i < found.len() && !has_local(ts, #[trigger] found[i].port) implies exists|k: int|
            0 <= k < d.len() && (#[trigger] d[k])->Discover_tunnel.source_port == found[i].port by {
            if i < found.len() - 1 {
                assert(rest[i].port == found[i].port);
                let k = choose|k: int| 0 <= k < e.len() && (#[trigger] e[k])->Discover_tunnel.source_port == rest[i].port;
                assert(d[k] == e[k]);
            } else {
                assert(d[d.len() - 1]->Discover_tunnel.source_port == found.last().port);
            }
        }
    }
}

/// Scans add and keep tunnels but never remove or reorder them: every
/// existing tunnel stays at its index with the same service, ports and origin;
/// each listed port that no local tunnel forwards gets one new discovered,
/// present local tunnel (switched on exactly when auto-forwarding), and no
/// port already forwarded locally is added again.
pub proof fn scans_only_add_tunnels(ts: Seq<TunnelView>, found: Seq<ListenerView>, auto_forward: bool)
    ensures
        ({
            let r = memory_result(ts, found, auto_forward);
            &&& r.len() >= ts.len()
            &&& forall|i: int| 0 <= i < ts.len() ==> {
                &&& (#[trigger] r[i]).direction == ts[i].direction
                &&& r[i].source_port == ts[i].source_port
                &&& r[i].requested_port == ts[i].requested_port
                &&& r[i].discovered == ts[i].discovered
            }
            &&& forall|k: int| ts.len() <= k < r.len() ==> {
                &&& (#[trigger] r[k]).direction == Direction::Local
                &&& r[k].discovered
                &&& r[k].present
                &&& r[k].enabled == auto_forward
                &&& !has_local(ts, r[k].source_port)
                &&& lists_port(found, r[k].source_port)
            }
            &&& forall|i: int| 0 <= i < found.len() && !has_local(ts, #[trigger] found[i].port) ==> exists|k: int|
                ts.len() <= k < r.len() && (#[trigger] r[k]).source_port == found[i].port
        }),
{
    lemma_discover_facts(ts, found, auto_forward);
    let r = memory_result(ts, found, auto_forward);
    let d = discover_actions(ts, found, auto_forward);
    let n = ts.len();
    assert forall|k: int| n <= k < r.len() implies {
        &&& (#[trigger] r[k]).direction == Direction::Local
        &&& r[k].discovered
        &&& r[k].present
        &&& r[k].enabled == auto_forward
        &&& !has_local(ts, r[k].source_port)
        &&& lists_port(found, r[k].source_port)
    } by {
        assert(r[k] == arriving(d[k - n]));
    }
    assert forall|i: int| 0 <= i < found.len() && !has_local(ts, #[trigger] found[i].port) implies exists|k: int|
        n <= k < r.len() && (#[trigger] r[k]).source_port == found[i].port by {
        let k = choose|k: int| 0 <= k < d.len() && (#[trigger] d[k])->Discover_tunnel.source_port == found[i].port;
        assert(r[n + k] == arriving(d[k]));
    }
}

/// Scans keep every enabled tunnel bound to a port, so planning never meets
/// an enabled tunnel without one, and the next scan may follow.
pub proof fn scans_keep_tunnels_bound(ts: Seq<TunnelView>, found: Seq<ListenerView>, later: Seq<ListenerView>, auto_forward: bool)
    requires
        forall|i: int| 0 <= i < ts.len() ==> bound_when_enabled(#[trigger] ts[i]),
    ensures
        forall|i: int| 0 <= i < ts.len() ==> !scan_panics(#[trigger] ts[i], found),
        forall|i: int| 0 <= i < memory_result(ts, found, auto_forward).len() ==> bound_when_enabled(
            #[trigger] memory_result(ts, found, auto_forward)[i],
        ),
        forall|i: int| 0 <= i < memory_result(ts, found, auto_forward).len() ==> !scan_panics(
            #[trigger] memory_result(ts, found, auto_forward)[i],
            later,
        ),
{
    lemma_discover_facts(ts, found, auto_forward);
    let r = memory_result(ts, found, auto_forward);
    let d = discover_actions(ts, found, auto_forward);
    assert forall|i: int| 0 <= i < r.len() implies bound_when_enabled(#[trigger] r[i]) by {
        if i < ts.len() {
            assert(bound_when_enabled(ts[i]));
        } else {
            assert(r[i] == arriving(d[i - ts.len()]));
        }
    }
    assert forall|i: int| 0 <= i < r.len() implies !scan_panics(#[trigger] r[i], later) by {
        assert(bound_when_enabled(r[i]));
    }
}

/// The tunnel index an action names (none for a discovery).
pub open spec fn action_index(a: ActionView) -> int {
    match a {
        ActionView::Enable(i) => i as int,
        ActionView::Cancel { index, .. } => index as int,
        ActionView::Discover { .. } => -1,
    }
}

proof fn lemma_index_actions_char(ts: Seq<TunnelView>, found: Seq<ListenerView>, auto_forward: bool)
    requires
        ts.len() <= usize::MAX,
    ensures
        ({
            let ia = index_actions(ts, found, auto_forward);
            &&& forall|k: int|
                0 <= k < ia.len() ==> 0 <= action_index(#[trigger] ia[k]) < ts.len() && tunnel_action(
                    action_index(ia[k]),
                    ts[action_index(ia[k])],
                    found,
                    auto_forward,
                ) == Some(ia[k])
            &&& forall|i: int|
                0 <= i < ts.len() && (#[trigger] tunnel_action(i, ts[i], found, auto_forward)) is Some
                    ==> exists|k: int| 0 <= k < ia.len() && ia[k] == tunnel_action(i, ts[i], found, auto_forward)->0
            &&& forall|j: int, k: int|
                0 <= j < k < ia.len() ==> action_index(#[trigger] ia[j]) < action_index(#[trigger] ia[k])
        }),
    decreases ts.len(),
{
    if ts.len() > 0 {
        let front = ts.drop_last();
        lemma_index_actions_char(front, found, auto_forward);
        let fa = index_actions(front, found, auto_forward);
        let ia = index_actions(ts, found, auto_forward);
        assert(forall|i: int| 0 <= i < front.len() ==> front[i] == ts[i]);
        let n = ts.len() - 1;
        match tunnel_action(n, ts.last(), found, auto_forward) {
            Some(a) => {
                assert(ia == fa.push(a));
                assert(action_index(a) == n);
                assert forall|i: int|
                    0 <= i < ts.len() && (#[trigger] tunnel_action(i, ts[i], found, auto_forward)) is Some
                        implies exists|k: int| 0 <= k < ia.len() && ia[k] == tunnel_action(i, ts[i], found, auto_forward)->0 by {
                    if i == n {
                        assert(ia[ia.len() - 1] == a);
                    } else {
                        assert(tunnel_action(i, front[i], found, auto_forward) is Some);
                        let k = choose|k: int| 0 <= k < fa.len() && fa[k] == tunnel_action(i, front[i], found, auto_forward)->0;
                        assert(ia[k] == fa[k]);
                    }
                }
            },
            None => {
                assert(ia == fa);
                assert forall|i: int|
                    0 <= i < ts.len() && (#[trigger] tunnel_action(i, ts[i], found, auto_forward)) is Some
                        implies exists|k: int| 0 <= k < ia.len() && ia[k] == tunnel_action(i, ts[i], found, auto_forward)->0 by {
                    assert(i != n);
                    assert(tunnel_action(i, front[i], found, auto_forward) is Some);
                }
            },
        }
    }
}

/// Which tunnels a scan acts on: the tunnel at `i` is switched on exactly
/// when it is a local tunnel whose service is listed, auto-forwarding is on,
/// and it is off and not turned off by hand; its forward is cancelled exactly
/// when it is a local tunnel whose service is not listed, this miss reaches
/// the threshold, and it is on (with the port it listens on). The actions on
/// existing tunnels come first, in increasing index order and at most one
/// per tunnel; the discoveries follow, one per unforwarded listener in the
/// order of `found`.
pub proof fn scan_plan_actions(
    ts: Seq<TunnelView>,
    found: Seq<ListenerView>,
    auto_forward: bool,
    i: int,
    bind: u16,
    source: u16,
)
    requires
        ts.len() <= usize::MAX,
        0 <= i < ts.len(),
        bound_when_enabled(ts[i]),
    ensures
        plan_actions(ts, found, auto_forward).contains(ActionView::Enable(i as usize)) <==> (
        ts[i].direction == Direction::Local && lists_port(found, ts[i].source_port) && auto_forward
            && !ts[i].enabled && !ts[i].manual_off),
        plan_actions(ts, found, auto_forward).contains(
            ActionView::Cancel { index: i as usize, bind, source },
        ) <==> (ts[i].direction == Direction::Local && !lists_port(found, ts[i].source_port)
            && saturating_inc(ts[i].missing_scans) >= MISSING_THRESHOLD && ts[i].enabled
            && ts[i].bind_port == Some(bind) && source == ts[i].source_port),
        ({
            let ia = index_actions(ts, found, auto_forward);
            let d = discover_actions(ts, found, auto_forward);
            &&& plan_actions(ts, found, auto_forward) == ia + d
            &&& forall|k: int| 0 <= k < ia.len() ==> !((#[trigger] ia[k]) is Discover) && 0 <= action_index(ia[k]) < ts.len()
            &&& forall|j: int, k: int|
                0 <= j < k < ia.len() ==> action_index(#[trigger] ia[j]) < action_index(#[trigger] ia[k])
            &&& forall|k: int| 0 <= k < d.len() ==> (#[trigger] d[k]) is Discover
        }),
{
    lemma_index_actions_char(ts, found, auto_forward);
    lemma_discover_only(ts, found, auto_forward);
    lemma_first_listener_lists(found, ts[i].source_port);
    let ia = index_actions(ts, found, auto_forward);
    let d = discover_actions(ts, found, auto_forward);
    let pa = plan_actions(ts, found, auto_forward);
    assert(pa == ia + d);
    assert forall|k: int| 0 <= k < ia.len() implies !((#[trigger] ia[k]) is Discover) && 0 <= action_index(ia[k]) < ts.len() by {
        assert(tunnel_action(action_index(ia[k]), ts[action_index(ia[k])], found, auto_forward) == Some(ia[k]));
    }
    let e = ActionView::Enable(i as usize);
    if pa.contains(e) {
        let k = choose|k: int| 0 <= k < pa.len() && pa[k] == e;
        if k >= ia.len() {
            assert(pa[k] == d[k - ia.len()]);
        } else {
            assert(ia[k] == e);
            assert(action_index(ia[k]) == i);
        }
    }
    if ts[i].direction == Direction::Local && lists_port(found, ts[i].source_port) && auto_forward
        && !ts[i].enabled && !ts[i].manual_off {
        assert(tunnel_action(i, ts[i], found, auto_forward) == Some(e));
        let k = choose|k: int| 0 <= k < ia.len() && ia[k] == tunnel_action(i, ts[i], found, auto_forward)->0;
        assert(pa[k] == e);
    }
    let c = ActionView::Cancel { index: i as usize, bind, source };
    if pa.contains(c) {
        let k = choose|k: int| 0 <= k < pa.len() && pa[k] == c;
        if k >= ia.len() {
            assert(pa[k] == d[k - ia.len()]);
        } else {
            assert(ia[k] == c);
            assert(action_index(ia[k]) == i);
        }
    }
    if ts[i].direction == Direction::Local && !lists_port(found, ts[i].source_port)
        && saturating_inc(ts[i].missing_scans) >= MISSING_THRESHOLD && ts[i].enabled
        && ts[i].bind_port == Some(bind) && source == ts[i].source_port {
        assert(tunnel_action(i, ts[i], found, auto_forward) == Some(c));
        let k = choose|k: int| 0 <= k < ia.len() && ia[k] == tunnel_action(i, ts[i], found, auto_forward)->0;
        assert(pa[k] == c);
    }
}

/// Applying a scan in memory is the same as updating every tunnel from the
/// listing and then carrying out the planned actions in order: a switch-on
/// binds the requested port, a cancel switches off, a discovery appends its
/// tunnel (switched on when asked).
pub proof fn in_memory_scan_applies_the_plan(ts: Seq<TunnelView>, found: Seq<ListenerView>, auto_forward: bool)
    requires
        ts.len() <= usize::MAX,
    ensures
        apply_all(scanned_all(ts, found), plan_actions(ts, found, auto_forward)) == memory_result(
            ts,
            found,
            auto_forward,
        ),
{
    lemma_memory_result(ts, found, auto_forward);
}

/// The discoveries of a scan are the listed listeners that no local tunnel
/// forwards, in the order of the listing, each as a new tunnel that is
/// switched on exactly when auto-forwarding.
pub proof fn discoveries_follow_the_listing(ts: Seq<TunnelView>, found: Seq<ListenerView>, auto_forward: bool)
    ensures
        discover_actions(ts, found, auto_forward) == found.filter(|l: ListenerView| !has_local(ts, l.port)).map_values(
            |l: ListenerView| ActionView::Discover { tunnel: listener_tunnel(l), enable: auto_forward },
        ),
    decreases found.len(),
{
    let f = |l: ListenerView| ActionView::Discover { tunnel: listener_tunnel(l), enable: auto_forward };
    let pred = |l: ListenerView| !has_local(ts, l.port);
    reveal(Seq::filter);
    if found.len() > 0 {
        discoveries_follow_the_listing(ts, found.drop_last(), auto_forward);
        let front = found.drop_last().filter(pred);
        if pred(found.last()) {
            assert(found.filter(pred) == front.push(found.last()));
            assert(front.push(found.last()).map_values(f) =~= front.map_values(f).push(f(found.last())));
        } else {
            assert(found.filter(pred) == front);
        }
    } else {
        assert(found.filter(pred).map_values(f) =~= Seq::<ActionView>::empty());
    }
}

} // verus!
