//! Outputs and windows.

use crate::screenshot::capture::OutputInfo;
use crate::seqs::{first_position, lemma_first_position_of};
use std::collections::HashMap;
use vstd::prelude::*;

verus! {

/// A workspace.
#[derive(Debug, Clone, Copy, PartialEq, Eq, Structural)]
pub struct Workspace {
    pub handle: u64,
    pub active: bool,
}

/// Workspaces that belong together.
#[derive(Debug)]
pub struct WorkspaceGroup {
    pub workspaces: Vec<Workspace>,
}

/// What is known of a window: where it is.
#[derive(Debug)]
pub struct ToplevelDetails {
    pub workspaces: Vec<u64>,
    /// The outputs, each of them once.
    pub outputs: Vec<u64>,
}

/// A window.
#[derive(Debug)]
pub struct Toplevel {
    pub handle: u64,
    pub info: Option<ToplevelDetails>,
}

/// What is captured.
#[derive(Debug, Clone, Copy, PartialEq, Eq, Structural)]
pub enum CaptureSource {
    Output(u64),
    Toplevel(u64),
}

/// Whether a workspace is active in some group.
pub open spec fn is_active(groups: Seq<WorkspaceGroup>, handle: u64) -> bool {
    exists|g: int, w: int|
        0 <= g < groups.len() && 0 <= w < groups[g].workspaces@.len()
            && #[trigger] groups[g].workspaces@[w] == (Workspace { handle, active: true })
}

/// Whether a window is on an active workspace.
pub open spec fn is_shown(groups: Seq<WorkspaceGroup>, info: ToplevelDetails) -> bool {
    exists|i: int|
        0 <= i < info.workspaces@.len() && is_active(groups, #[trigger] info.workspaces@[i])
}

/// Whether a window is on an active workspace and on an output.
pub open spec fn is_on(groups: Seq<WorkspaceGroup>, toplevel: Toplevel, output: u64) -> bool {
    match toplevel.info {
        Some(info) => is_shown(groups, info) && info.outputs@.contains(output),
        None => false,
    }
}

/// The windows on an output, in order.
pub open spec fn shown_on(
    groups: Seq<WorkspaceGroup>,
    toplevels: Seq<Toplevel>,
    output: u64,
) -> Seq<u64>
    decreases toplevels.len(),
{
    if toplevels.len() == 0 {
        Seq::empty()
    } else {
        let before = shown_on(groups, toplevels.drop_last(), output);
        if is_on(groups, toplevels.last(), output) {
            before.push(toplevels.last().handle)
        } else {
            before
        }
    }
}

/// The windows of which something is known, in order.
pub open spec fn known(toplevels: Seq<Toplevel>) -> Seq<u64>
    decreases toplevels.len(),
{
    if toplevels.len() == 0 {
        Seq::empty()
    } else {
        let before = known(toplevels.drop_last());
        if toplevels.last().info is Some {
            before.push(toplevels.last().handle)
        } else {
            before
        }
    }
}

/// No window names an output twice.
pub open spec fn outputs_once(toplevels: Seq<Toplevel>) -> bool {
    forall|i: int|
        0 <= i < toplevels.len() ==> match (#[trigger] toplevels[i]).info {
            Some(info) => info.outputs@.no_duplicates(),
            None => true,
        }
}

/// Whether the lists of a map are the windows of each output, without empty lists.
pub open spec fn lists_windows(
    map: Map<u64, Vec<u64>>,
    groups: Seq<WorkspaceGroup>,
    toplevels: Seq<Toplevel>,
) -> bool {
    forall|output: u64|
        {
            let shown = shown_on(groups, toplevels, output);
            &&& #[trigger] map.dom().contains(output) <==> shown.len() > 0
            &&& map.dom().contains(output) ==> map[output]@ == shown
        }
}

/// Whether a workspace is active in some group.
fn workspace_is_active(groups: &Vec<WorkspaceGroup>, handle: u64) -> (r: bool)
    ensures
        r == is_active(groups@, handle),
{
    let mut g: usize = 0;
    while g < groups.len()
        invariant
            g <= groups@.len(),
            forall|i: int, w: int|
                0 <= i < g && 0 <= w < groups@[i].workspaces@.len()
                    ==> #[trigger] groups@[i].workspaces@[w] != (Workspace { handle, active: true }),
        decreases groups@.len() - g,
    {
        let mut w: usize = 0;
        while w < groups[g].workspaces.len()
            invariant
                g < groups@.len(),
                w <= groups@[g as int].workspaces@.len(),
                forall|i: int, v: int|
                    0 <= i < g && 0 <= v < groups@[i].workspaces@.len()
                        ==> #[trigger] groups@[i].workspaces@[v] != (Workspace {
                        handle,
                        active: true,
                    }),
                forall|v: int|
                    0 <= v < w ==> #[trigger] groups@[g as int].workspaces@[v] != (Workspace {
                        handle,
                        active: true,
                    }),
            decreases groups@[g as int].workspaces@.len() - w,
        {
            let workspace = groups[g].workspaces[w];
            if workspace.handle == handle && workspace.active {
                return true;
            }
            w = w + 1;
        }
        g = g + 1;
    }
    false
}

/// Whether a window is on an active workspace.
fn toplevel_is_shown(groups: &Vec<WorkspaceGroup>, info: &ToplevelDetails) -> (r: bool)
    ensures
        r == is_shown(groups@, *info),
{
    let mut i: usize = 0;
    while i < info.workspaces.len()
        invariant
            i <= info.workspaces@.len(),
            forall|j: int|
                0 <= j < i ==> !is_active(groups@, #[trigger] info.workspaces@[j]),
        decreases info.workspaces@.len() - i,
    {
        if workspace_is_active(groups, info.workspaces[i]) {
            return true;
        }
        i = i + 1;
    }
    false
}

/// The lists of a map with a window added to those of some outputs.
pub open spec fn with_window(
    map: Map<u64, Vec<u64>>,
    outputs: Seq<u64>,
    handle: u64,
    output: u64,
) -> Seq<u64> {
    let before = if map.dom().contains(output) {
        map[output]@
    } else {
        Seq::empty()
    };
    if outputs.contains(output) {
        before.push(handle)
    } else {
        before
    }
}

/// Adds a window to the lists of its outputs.
fn add_window(map: &mut HashMap<u64, Vec<u64>>, outputs: &Vec<u64>, handle: u64)
    requires
        outputs@.no_duplicates(),
    ensures
        forall|output: u64|
            {
                &&& #[trigger] final(map)@.dom().contains(output) <==> old(map)@.dom().contains(output)
                    || outputs@.contains(output)
                &&& final(map)@.dom().contains(output) ==> final(map)@[output]@ == with_window(
                    old(map)@,
                    outputs@,
                    handle,
                    output,
                )
            },
{
    let ghost all = map@;
    let mut i: usize = 0;
    while i < outputs.len()
        invariant
            i <= outputs@.len(),
            outputs@.no_duplicates(),
            forall|output: u64|
                {
                    &&& #[trigger] map@.dom().contains(output) <==> all.dom().contains(output)
                        || outputs@.take(i as int).contains(output)
                    &&& map@.dom().contains(output) ==> map@[output]@ == with_window(
                        all,
                        outputs@.take(i as int),
                        handle,
                        output,
                    )
                },
        decreases outputs@.len() - i,
    {
        let output = outputs[i];
        let ghost before = map@;
        let ghost done = outputs@.take(i as int);
        let ghost next = outputs@.take(i + 1);
        proof {
            assert(next =~= done.push(output));
            assert(!done.contains(output));
            assert(next[i as int] == output);
            assert forall|o: u64| o != output implies done.contains(o) == next.contains(o) by {
                if done.contains(o) {
                    let j = choose|j: int| 0 <= j < done.len() && done[j] == o;
                    assert(next[j] == o);
                }
                if next.contains(o) {
                    let j = choose|j: int| 0 <= j < next.len() && next[j] == o;
                    assert(done[j] == o);
                }
            }
        }
        let mut list = match map.remove(&output) {
            Some(list) => list,
            None => Vec::new(),
        };
        list.push(handle);
        map.insert(output, list);
        proof {
            assert(map@.dom().contains(output));
            assert forall|o: u64|
                {
                    &&& #[trigger] map@.dom().contains(o) <==> all.dom().contains(o)
                        || next.contains(o)
                    &&& map@.dom().contains(o) ==> map@[o]@ == with_window(all, next, handle, o)
                } by {
                assert(before.dom().contains(o) <==> all.dom().contains(o) || done.contains(o));
                if o == output {
                    assert(map@[o]@ =~= with_window(all, next, handle, o));
                } else {
                    assert(map@.dom().contains(o) == before.dom().contains(o));
                }
            }
        }
        i = i + 1;
    }
    proof {
        assert(outputs@.take(outputs@.len() as int) =~= outputs@);
    }
}

/// The windows on each output.
pub fn list_output_toplevels(toplevels: &Vec<Toplevel>, groups: &Vec<WorkspaceGroup>) -> (r: HashMap<
    u64,
    Vec<u64>,
>)
    requires
        outputs_once(toplevels@),
    ensures
        lists_windows(r@, groups@, toplevels@),
{
    let mut r: HashMap<u64, Vec<u64>> = HashMap::new();
    let mut i: usize = 0;
    while i < toplevels.len()
        invariant
            i <= toplevels@.len(),
            outputs_once(toplevels@),
            lists_windows(r@, groups@, toplevels@.take(i as int)),
        decreases toplevels@.len() - i,
    {
        let ghost before = r@;
        let ghost done = toplevels@.take(i as int);
        let ghost next = toplevels@.take(i + 1);
        let toplevel = &toplevels[i];
        proof {
            assert(next.drop_last() =~= done);
            assert(next.last() == toplevel);
        }
        if let Some(info) = &toplevel.info {
            if toplevel_is_shown(groups, info) {
                add_window(&mut r, &info.outputs, toplevel.handle);
            }
        }
        proof {
            assert forall|output: u64|
                {
                    let shown = shown_on(groups@, next, output);
                    &&& #[trigger] r@.dom().contains(output) <==> shown.len() > 0
                    &&& r@.dom().contains(output) ==> r@[output]@ == shown
                } by {
                let shown = shown_on(groups@, done, output);
                assert(before.dom().contains(output) <==> shown.len() > 0);
                if !before.dom().contains(output) {
                    assert(shown =~= Seq::empty());
                }
            }
        }
        i = i + 1;
    }
    proof {
        assert(toplevels@.take(toplevels@.len() as int) =~= toplevels@);
    }
    r
}

/// The windows of which something is known.
pub fn list_toplevels(toplevels: &Vec<Toplevel>) -> (r: Vec<u64>)
    ensures
        r@ == known(toplevels@),
{
    let mut r: Vec<u64> = Vec::new();
    let mut i: usize = 0;
    while i < toplevels.len()
        invariant
            i <= toplevels@.len(),
            r@ == known(toplevels@.take(i as int)),
        decreases toplevels@.len() - i,
    {
        proof {
            assert(toplevels@.take(i + 1).drop_last() =~= toplevels@.take(i as int));
            assert(toplevels@.take(i + 1).last() == toplevels@[i as int]);
        }
        if toplevels[i].info.is_some() {
            r.push(toplevels[i].handle);
        }
        i = i + 1;
    }
    proof {
        assert(toplevels@.take(toplevels@.len() as int) =~= toplevels@);
    }
    r
}

/// What happens to a window.
#[derive(Debug, Clone, Copy, PartialEq, Eq, Structural)]
pub enum ToplevelEvent {
    New,
    Updated,
    Closed,
}

/// Whether those who watch which applications run are told: when a window comes or goes, but not
/// when its title or focus changes.
pub fn toplevels_changed(event: ToplevelEvent) -> (r: bool)
    ensures
        r == (event != ToplevelEvent::Updated),
{
    match event {
        ToplevelEvent::New => true,
        ToplevelEvent::Updated => false,
        ToplevelEvent::Closed => true,
    }
}

/// What is known of outputs and windows.
#[derive(Debug)]
pub struct WaylandHelper {
    /// The outputs, in the order in which they came.
    pub outputs: Vec<u64>,
    pub output_infos: HashMap<u64, OutputInfo>,
    pub output_toplevels: HashMap<u64, Vec<u64>>,
    pub toplevels: Vec<u64>,
}

impl WaylandHelper {
    /// Nothing is known.
    pub fn new() -> (r: Self)
        ensures
            r.outputs@ == Seq::<u64>::empty(),
            r.output_infos@ == Map::<u64, OutputInfo>::empty(),
            r.output_toplevels@ == Map::<u64, Vec<u64>>::empty(),
            r.toplevels@ == Seq::<u64>::empty(),
    {
        WaylandHelper {
            outputs: Vec::new(),
            output_infos: HashMap::new(),
            output_toplevels: HashMap::new(),
            toplevels: Vec::new(),
        }
    }

    /// What is known of an output.
    pub fn output_info(&self, output: u64) -> (r: Option<&OutputInfo>)
        ensures
            match r {
                Some(info) => self.output_infos@.dom().contains(output) && *info
                    == self.output_infos@[output],
                None => !self.output_infos@.dom().contains(output),
            },
    {
        self.output_infos.get(&output)
    }

    /// The windows on an output that are captured one by one.
    pub fn capture_output_toplevels(&self, output: u64) -> (r: Vec<CaptureSource>)
        ensures
            r@ == if self.output_toplevels@.dom().contains(output) {
                self.output_toplevels@[output]@.map_values(|t: u64| CaptureSource::Toplevel(t))
            } else {
                Seq::empty()
            },
    {
        let mut r: Vec<CaptureSource> = Vec::new();
        if let Some(toplevels) = self.output_toplevels.get(&output) {
            let ghost all = toplevels@.map_values(|t: u64| CaptureSource::Toplevel(t));
            let mut i: usize = 0;
            while i < toplevels.len()
                invariant
                    i <= toplevels@.len(),
                    all == toplevels@.map_values(|t: u64| CaptureSource::Toplevel(t)),
                    r@ == all.take(i as int),
                decreases toplevels@.len() - i,
            {
                r.push(CaptureSource::Toplevel(toplevels[i]));
                proof {
                    assert(all.take(i + 1) =~= all.take(i as int).push(all[i as int]));
                }
                i = i + 1;
            }
            proof {
                assert(all.take(all.len() as int) =~= all);
            }
        }
        r
    }

    /// Takes notice of what is known of an output, or that it is gone.
    pub fn set_output_info(&mut self, output: u64, info: Option<OutputInfo>)
        ensures
            final(self).output_infos@ == match info {
                Some(info) => old(self).output_infos@.insert(output, info),
                None => old(self).output_infos@.remove(output),
            },
            final(self).outputs == old(self).outputs,
            final(self).output_toplevels == old(self).output_toplevels,
            final(self).toplevels == old(self).toplevels,
    {
        match info {
            Some(info) => {
                self.output_infos.insert(output, info);
            },
            None => {
                self.output_infos.remove(&output);
            },
        }
    }

    /// Takes notice of all windows.
    pub fn update_output_toplevels(
        &mut self,
        toplevels: &Vec<Toplevel>,
        groups: &Vec<WorkspaceGroup>,
    )
        requires
            outputs_once(toplevels@),
        ensures
            lists_windows(final(self).output_toplevels@, groups@, toplevels@),
            final(self).toplevels@ == known(toplevels@),
            final(self).outputs == old(self).outputs,
            final(self).output_infos == old(self).output_infos,
    {
        self.output_toplevels = list_output_toplevels(toplevels, groups);
        self.toplevels = list_toplevels(toplevels);
    }

    /// Takes notice of a new output.
    pub fn new_output(&mut self, output: u64, info: Option<OutputInfo>)
        ensures
            final(self).outputs@ == old(self).outputs@.push(output),
            final(self).output_infos@ == match info {
                Some(info) => old(self).output_infos@.insert(output, info),
                None => old(self).output_infos@.remove(output),
            },
            final(self).output_toplevels == old(self).output_toplevels,
            final(self).toplevels == old(self).toplevels,
    {
        self.set_output_info(output, info);
        self.outputs.push(output);
    }

    /// Takes notice that an output is gone.
    pub fn output_destroyed(&mut self, output: u64)
        requires
            old(self).outputs@.contains(output),
        ensures
            final(self).outputs@ == old(self).outputs@.remove(
                first_position(old(self).outputs@, output) as int,
            ),
            final(self).output_infos@ == old(self).output_infos@.remove(output),
            final(self).output_toplevels == old(self).output_toplevels,
            final(self).toplevels == old(self).toplevels,
    {
        self.set_output_info(output, None);
        let ghost all = self.outputs@;
        let mut i: usize = 0;
        proof {
            lemma_first_position_of(all, output);
        }
        while i < self.outputs.len() && self.outputs[i] != output
            invariant
                i <= self.outputs@.len(),
                self.outputs@ == all,
                i <= first_position(all, output) < all.len(),
                all[first_position(all, output) as int] == output,
                forall|j: int| 0 <= j < first_position(all, output) ==> all[j] != output,
                self.output_infos@ == old(self).output_infos@.remove(output),
                self.output_toplevels == old(self).output_toplevels,
                self.toplevels == old(self).toplevels,
            decreases self.outputs@.len() - i,
        {
            i = i + 1;
        }
        self.outputs.remove(i);
    }
}

/// A window is listed for an output exactly where it is one of the windows and is on that output and
/// on an active workspace.
pub proof fn law_listed_windows_are_shown(
    groups: Seq<WorkspaceGroup>,
    toplevels: Seq<Toplevel>,
    output: u64,
    handle: u64,
)
    ensures
        shown_on(groups, toplevels, output).contains(handle) <==> exists|i: int|
            0 <= i < toplevels.len() && (#[trigger] toplevels[i]).handle == handle && is_on(
                groups,
                toplevels[i],
                output,
            ),
    decreases toplevels.len(),
{
    if toplevels.len() > 0 {
        let rest = toplevels.drop_last();
        let last = toplevels.last();
        law_listed_windows_are_shown(groups, rest, output, handle);
        let before = shown_on(groups, rest, output);
        let all = shown_on(groups, toplevels, output);
        if all.contains(handle) {
            let k = choose|k: int| 0 <= k < all.len() && all[k] == handle;
            if k < before.len() {
                assert(before[k] == handle);
                let i = choose|i: int|
                    0 <= i < rest.len() && (#[trigger] rest[i]).handle == handle && is_on(
                        groups,
                        rest[i],
                        output,
                    );
                assert(toplevels[i].handle == handle);
            } else {
                assert(toplevels[toplevels.len() - 1].handle == handle);
            }
        }
        if exists|i: int|
            0 <= i < toplevels.len() && (#[trigger] toplevels[i]).handle == handle && is_on(
                groups,
                toplevels[i],
                output,
            ) {
            let i = choose|i: int|
                0 <= i < toplevels.len() && (#[trigger] toplevels[i]).handle == handle && is_on(
                    groups,
                    toplevels[i],
                    output,
                );
            if i < rest.len() {
                assert(rest[i].handle == handle);
                assert(before.contains(handle));
                let k = choose|k: int| 0 <= k < before.len() && before[k] == handle;
                assert(all[k] == handle);
            } else {
                assert(all[all.len() - 1] == handle);
            }
        }
    }
}

/// A window on an output is listed there where one of its workspaces is active, in whatever group, and
/// not where none is; a window of which nothing is known is on no output.
pub proof fn law_windows_of_active_workspaces_are_shown(
    groups: Seq<WorkspaceGroup>,
    toplevel: Toplevel,
    output: u64,
    g: int,
    w: int,
    i: int,
)
    ensures
        toplevel.info matches Some(info) ==> {
            &&& info.outputs@.contains(output) && 0 <= i < info.workspaces@.len() && 0 <= g
                < groups.len() && 0 <= w < groups[g].workspaces@.len()
                && groups[g].workspaces@[w].handle == info.workspaces@[i]
                && groups[g].workspaces@[w].active ==> is_on(groups, toplevel, output)
            &&& !info.outputs@.contains(output) ==> !is_on(groups, toplevel, output)
            &&& (forall|a: int, b: int|
                0 <= a < groups.len() && 0 <= b < groups[a].workspaces@.len() ==> !(
                #[trigger] groups[a].workspaces@[b]).active) ==> !is_on(groups, toplevel, output)
        },
        toplevel.info is None ==> !is_on(groups, toplevel, output),
{
    if let Some(info) = toplevel.info {
        if 0 <= i < info.workspaces@.len() && 0 <= g < groups.len() && 0 <= w
            < groups[g].workspaces@.len() && groups[g].workspaces@[w].handle == info.workspaces@[i]
            && groups[g].workspaces@[w].active {
            let handle = info.workspaces@[i];
            assert(groups[g].workspaces@[w] == (Workspace { handle, active: true }));
            assert(is_active(groups, info.workspaces@[i]));
        }
    }
}

/// Every window of which something is known is listed, and no other.
pub proof fn law_known_windows_are_listed(toplevels: Seq<Toplevel>, handle: u64)
    ensures
        known(toplevels).contains(handle) <==> exists|i: int|
            0 <= i < toplevels.len() && (#[trigger] toplevels[i]).handle == handle
                && toplevels[i].info is Some,
    decreases toplevels.len(),
{
    if toplevels.len() > 0 {
        let rest = toplevels.drop_last();
        let (all, before) = (known(toplevels), known(rest));
        law_known_windows_are_listed(rest, handle);
        if all.contains(handle) {
            let k = choose|k: int| 0 <= k < all.len() && all[k] == handle;
            if k < before.len() {
                assert(before[k] == handle);
                let i = choose|i: int|
                    0 <= i < rest.len() && (#[trigger] rest[i]).handle == handle && rest[i].info is Some;
                assert(toplevels[i] == rest[i]);
            } else {
                assert(toplevels[toplevels.len() - 1].info is Some);
            }
        }
        if exists|i: int|
            0 <= i < toplevels.len() && (#[trigger] toplevels[i]).handle == handle
                && toplevels[i].info is Some {
            let i = choose|i: int|
                0 <= i < toplevels.len() && (#[trigger] toplevels[i]).handle == handle
                    && toplevels[i].info is Some;
            if i < rest.len() {
                assert(rest[i] == toplevels[i]);
                let k = choose|k: int| 0 <= k < before.len() && before[k] == handle;
                assert(all[k] == handle);
            } else {
                assert(all.last() == handle);
            }
        }
    }
}

} // verus!
