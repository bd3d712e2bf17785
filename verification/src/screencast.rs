//! Sessions in which an application gets to see outputs and windows.

pub mod buffers;
pub mod dialog;
pub mod prompt;
pub mod session;
pub mod thread;

use crate::text::{clone_texts, str_eq, view_opt, views};
use vstd::prelude::*;

verus! {

/// The bit for a pointer that is not shown.
pub const CURSOR_MODE_HIDDEN: u32 = 1;

/// The bit for a pointer that is part of the picture.
pub const CURSOR_MODE_EMBEDDED: u32 = 2;

/// The bit for a pointer that is told of beside the picture.
pub const CURSOR_MODE_METADATA: u32 = 4;

/// The bit for outputs.
pub const SOURCE_TYPE_MONITOR: u32 = 1;

/// The bit for windows.
pub const SOURCE_TYPE_WINDOW: u32 = 2;

/// The bit for outputs that are made for the purpose.
pub const SOURCE_TYPE_VIRTUAL: u32 = 4;

/// All bits for sources.
pub const ALL_SOURCE_TYPES: u32 = 7;

/// The sources that can be offered.
pub fn available_source_types() -> (r: u32)
    ensures
        r == SOURCE_TYPE_MONITOR | SOURCE_TYPE_WINDOW,
{
    SOURCE_TYPE_MONITOR | SOURCE_TYPE_WINDOW
}

/// The ways in which the pointer can be shown.
pub fn available_cursor_modes() -> (r: u32)
    ensures
        r == CURSOR_MODE_HIDDEN | CURSOR_MODE_EMBEDDED,
{
    CURSOR_MODE_HIDDEN | CURSOR_MODE_EMBEDDED
}

/// An output that can be captured.
#[derive(Debug)]
pub struct OutputSource {
    pub id: u64,
    /// Whether anything is known of the output beside its number.
    pub known: bool,
    pub name: Option<String>,
    pub position: Option<(i32, i32)>,
    pub size: Option<(i32, i32)>,
}

/// A window that can be captured.
#[derive(Debug)]
pub struct ToplevelSource {
    pub id: u64,
    pub identifier: String,
    /// The sizes of the window on the outputs that show it.
    pub sizes: Vec<(i32, i32)>,
}

/// The outputs and windows that there are.
#[derive(Debug)]
pub struct LiveSources {
    pub outputs: Vec<OutputSource>,
    pub toplevels: Vec<ToplevelSource>,
}

/// The outputs and windows that are captured, by their numbers.
#[derive(Debug, PartialEq, Eq)]
pub struct CaptureSources {
    pub outputs: Vec<u64>,
    pub toplevels: Vec<u64>,
}

/// The outputs and windows that are captured, as a value.
pub struct CaptureView {
    pub outputs: Seq<u64>,
    pub toplevels: Seq<u64>,
}

impl View for CaptureSources {
    type V = CaptureView;

    open spec fn view(&self) -> CaptureView {
        CaptureView { outputs: self.outputs@, toplevels: self.toplevels@ }
    }
}

/// The outputs and windows that were captured, by names that stay.
#[derive(Debug)]
pub struct PersistedCaptureSources {
    pub outputs: Vec<String>,
    pub toplevels: Vec<String>,
}

/// The outputs and windows that were captured, as a value.
pub struct PersistedView {
    pub outputs: Seq<Seq<char>>,
    pub toplevels: Seq<Seq<char>>,
}

impl View for PersistedCaptureSources {
    type V = PersistedView;

    open spec fn view(&self) -> PersistedView {
        PersistedView { outputs: views(self.outputs@), toplevels: views(self.toplevels@) }
    }
}

/// Sources that may be there, as a value.
pub open spec fn persisted_view(sources: Option<PersistedCaptureSources>) -> Option<PersistedView> {
    match sources {
        Some(sources) => Some(sources@),
        None => None,
    }
}

impl Default for PersistedCaptureSources {
    fn default() -> (r: Self)
        ensures
            r@ == (PersistedView { outputs: Seq::empty(), toplevels: Seq::empty() }),
    {
        let r = PersistedCaptureSources { outputs: Vec::new(), toplevels: Vec::new() };
        proof {
            assert(r@.outputs =~= Seq::empty());
            assert(r@.toplevels =~= Seq::empty());
        }
        r
    }
}

impl Clone for PersistedCaptureSources {
    fn clone(&self) -> (r: Self)
        ensures
            r@ == self@,
    {
        PersistedCaptureSources {
            outputs: clone_texts(&self.outputs),
            toplevels: clone_texts(&self.toplevels),
        }
    }
}

/// The first output with a number.
pub open spec fn output_at(outputs: Seq<OutputSource>, id: u64) -> Option<OutputSource>
    decreases outputs.len(),
{
    if outputs.len() == 0 {
        None
    } else if outputs[0].id == id {
        Some(outputs[0])
    } else {
        output_at(outputs.skip(1), id)
    }
}

/// The name of the first output with a number.
pub open spec fn name_of_output(outputs: Seq<OutputSource>, id: u64) -> Option<Seq<char>> {
    match output_at(outputs, id) {
        Some(output) => if output.known {
            view_opt(output.name)
        } else {
            None
        },
        None => None,
    }
}

/// The number of the first output with a name.
pub open spec fn output_of_name(outputs: Seq<OutputSource>, name: Seq<char>) -> Option<u64>
    decreases outputs.len(),
{
    if outputs.len() == 0 {
        None
    } else if outputs[0].known && view_opt(outputs[0].name) == Some(name) {
        Some(outputs[0].id)
    } else {
        output_of_name(outputs.skip(1), name)
    }
}

/// The first window with a number.
pub open spec fn toplevel_at(toplevels: Seq<ToplevelSource>, id: u64) -> Option<ToplevelSource>
    decreases toplevels.len(),
{
    if toplevels.len() == 0 {
        None
    } else if toplevels[0].id == id {
        Some(toplevels[0])
    } else {
        toplevel_at(toplevels.skip(1), id)
    }
}

/// The identifier of the first window with a number.
pub open spec fn identifier_of_toplevel(
    toplevels: Seq<ToplevelSource>,
    id: u64,
) -> Option<Seq<char>> {
    match toplevel_at(toplevels, id) {
        Some(toplevel) => Some(toplevel.identifier@),
        None => None,
    }
}

/// The number of the first window with an identifier.
pub open spec fn toplevel_of_identifier(
    toplevels: Seq<ToplevelSource>,
    identifier: Seq<char>,
) -> Option<u64>
    decreases toplevels.len(),
{
    if toplevels.len() == 0 {
        None
    } else if toplevels[0].identifier@ == identifier {
        Some(toplevels[0].id)
    } else {
        toplevel_of_identifier(toplevels.skip(1), identifier)
    }
}

/// What is found for each; none where anything is missing.
pub open spec fn all_found<A, B>(keys: Seq<A>, find: spec_fn(A) -> Option<B>) -> Option<Seq<B>>
    decreases keys.len(),
{
    if keys.len() == 0 {
        Some(Seq::empty())
    } else {
        match all_found(keys.drop_last(), find) {
            Some(found) => match find(keys.last()) {
                Some(value) => Some(found.push(value)),
                None => None,
            },
            None => None,
        }
    }
}

/// Where something is missing at first, something is missing of the whole.
proof fn lemma_missing<A, B>(keys: Seq<A>, find: spec_fn(A) -> Option<B>, n: int)
    requires
        0 <= n <= keys.len(),
        all_found(keys.take(n), find) is None,
    ensures
        all_found(keys, find) is None,
    decreases keys.len(),
{
    if n < keys.len() {
        assert(keys.drop_last().take(n) =~= keys.take(n));
        lemma_missing(keys.drop_last(), find, n);
    } else {
        assert(keys.take(n) =~= keys);
    }
}

/// The outputs and windows with these names; none where one is not there any more.
pub open spec fn resolved(sources: PersistedView, live: LiveSources) -> Option<CaptureView> {
    let outputs = all_found(
        sources.outputs,
        |name: Seq<char>| output_of_name(live.outputs@, name),
    );
    let toplevels = all_found(
        sources.toplevels,
        |identifier: Seq<char>| toplevel_of_identifier(live.toplevels@, identifier),
    );
    match (outputs, toplevels) {
        (Some(outputs), Some(toplevels)) => Some(CaptureView { outputs, toplevels }),
        _ => None,
    }
}

/// The names of outputs and windows; none where one has no name.
pub open spec fn persisted(sources: CaptureView, live: LiveSources) -> Option<PersistedView> {
    let outputs = all_found(sources.outputs, |id: u64| name_of_output(live.outputs@, id));
    let toplevels = all_found(
        sources.toplevels,
        |id: u64| identifier_of_toplevel(live.toplevels@, id),
    );
    match (outputs, toplevels) {
        (Some(outputs), Some(toplevels)) => Some(PersistedView { outputs, toplevels }),
        _ => None,
    }
}

/// Whether no two outputs have the same name, and no two windows the same identifier.
pub open spec fn names_differ(live: LiveSources) -> bool {
    &&& forall|i: int, j: int|
        #![trigger live.outputs@[i], live.outputs@[j]]
        0 <= i < j < live.outputs@.len() && live.outputs@[i].known && live.outputs@[j].known
            && live.outputs@[i].name is Some && live.outputs@[j].name is Some
            ==> live.outputs@[i].name->0@ != live.outputs@[j].name->0@
    &&& forall|i: int, j: int|
        #![trigger live.toplevels@[i], live.toplevels@[j]]
        0 <= i < j < live.toplevels@.len() ==> live.toplevels@[i].identifier@
            != live.toplevels@[j].identifier@
}

/// An output is found by the name that it is kept under.
proof fn lemma_output_returns(outputs: Seq<OutputSource>, id: u64)
    requires
        forall|i: int, j: int|
            #![trigger outputs[i], outputs[j]]
            0 <= i < j < outputs.len() && outputs[i].known && outputs[j].known && outputs[i].name is Some
                && outputs[j].name is Some ==> outputs[i].name->0@ != outputs[j].name->0@,
        name_of_output(outputs, id) is Some,
    ensures
        output_of_name(outputs, name_of_output(outputs, id)->0) == Some(id),
    decreases outputs.len(),
{
    let name = name_of_output(outputs, id)->0;
    if outputs[0].id != id {
        let rest = outputs.skip(1);
        assert forall|i: int, j: int|
            #![trigger rest[i], rest[j]]
            0 <= i < j < rest.len() && rest[i].known && rest[j].known && rest[i].name is Some
                && rest[j].name is Some implies rest[i].name->0@ != rest[j].name->0@ by {
            assert(rest[i] == outputs[i + 1] && rest[j] == outputs[j + 1]);
        }
        lemma_output_returns(rest, id);
        if outputs[0].known && view_opt(outputs[0].name) == Some(name) {
            lemma_output_is_there(rest, id);
            let k = choose|k: int|
                0 <= k < rest.len() && #[trigger] rest[k] == output_at(rest, id)->0;
            assert(rest[k] == outputs[k + 1]);
            assert(outputs[0].name->0@ != outputs[k + 1].name->0@);
        }
    }
}

/// An output that is found is one of the outputs.
proof fn lemma_output_is_there(outputs: Seq<OutputSource>, id: u64)
    requires
        output_at(outputs, id) is Some,
    ensures
        exists|k: int| 0 <= k < outputs.len() && #[trigger] outputs[k] == output_at(outputs, id)->0,
    decreases outputs.len(),
{
    if outputs[0].id == id {
        assert(outputs[0] == output_at(outputs, id)->0);
    } else {
        let rest = outputs.skip(1);
        lemma_output_is_there(rest, id);
        let k = choose|k: int| 0 <= k < rest.len() && #[trigger] rest[k] == output_at(rest, id)->0;
        assert(outputs[k + 1] == rest[k]);
    }
}

/// A window is found by the identifier that it is kept under.
proof fn lemma_toplevel_returns(toplevels: Seq<ToplevelSource>, id: u64)
    requires
        forall|i: int, j: int|
            #![trigger toplevels[i], toplevels[j]]
            0 <= i < j < toplevels.len() ==> toplevels[i].identifier@ != toplevels[j].identifier@,
        toplevel_at(toplevels, id) is Some,
    ensures
        toplevel_of_identifier(toplevels, toplevel_at(toplevels, id)->0.identifier@) == Some(id),
    decreases toplevels.len(),
{
    if toplevels[0].id != id {
        let rest = toplevels.skip(1);
        assert forall|i: int, j: int|
            #![trigger rest[i], rest[j]]
            0 <= i < j < rest.len() implies rest[i].identifier@ != rest[j].identifier@ by {
            assert(rest[i] == toplevels[i + 1] && rest[j] == toplevels[j + 1]);
        }
        lemma_toplevel_returns(rest, id);
        lemma_toplevel_is_there(rest, id);
        let k = choose|k: int|
            0 <= k < rest.len() && #[trigger] rest[k] == toplevel_at(rest, id)->0;
        assert(rest[k] == toplevels[k + 1]);
        assert(toplevels[0].identifier@ != toplevels[k + 1].identifier@);
    }
}

/// A window that is found is one of the windows.
proof fn lemma_toplevel_is_there(toplevels: Seq<ToplevelSource>, id: u64)
    requires
        toplevel_at(toplevels, id) is Some,
    ensures
        exists|k: int|
            0 <= k < toplevels.len() && #[trigger] toplevels[k] == toplevel_at(toplevels, id)->0,
    decreases toplevels.len(),
{
    if toplevels[0].id == id {
        assert(toplevels[0] == toplevel_at(toplevels, id)->0);
    } else {
        let rest = toplevels.skip(1);
        lemma_toplevel_is_there(rest, id);
        let k = choose|k: int|
            0 <= k < rest.len() && #[trigger] rest[k] == toplevel_at(rest, id)->0;
        assert(toplevels[k + 1] == rest[k]);
    }
}

/// What one search finds another one leads back from, where it does so for each.
proof fn lemma_found_returns<A, B>(
    keys: Seq<A>,
    there: spec_fn(A) -> Option<B>,
    back: spec_fn(B) -> Option<A>,
)
    requires
        forall|key: A| #[trigger] there(key) is Some ==> back(there(key)->0) == Some(key),
        all_found(keys, there) is Some,
    ensures
        all_found(all_found(keys, there)->0, back) == Some(keys),
    decreases keys.len(),
{
    if keys.len() > 0 {
        let init = keys.drop_last();
        lemma_found_returns(init, there, back);
        let found = all_found(init, there)->0;
        let value = there(keys.last())->0;
        assert(found.push(value).drop_last() =~= found);
        assert(init.push(keys.last()) =~= keys);
    } else {
        assert(keys =~= Seq::<A>::empty());
    }
}

/// Sources that are kept by their names lead back to the same sources, as long as these are there
/// and their names tell them apart.
pub proof fn law_kept_sources_return(sources: CaptureView, live: LiveSources)
    requires
        names_differ(live),
        persisted(sources, live) is Some,
    ensures
        resolved(persisted(sources, live)->0, live) == Some(sources),
{
    let name = |id: u64| name_of_output(live.outputs@, id);
    let output = |name: Seq<char>| output_of_name(live.outputs@, name);
    assert forall|id: u64| #[trigger] name(id) is Some implies output(name(id)->0) == Some(id) by {
        lemma_output_returns(live.outputs@, id);
    }
    lemma_found_returns(sources.outputs, name, output);
    let identifier = |id: u64| identifier_of_toplevel(live.toplevels@, id);
    let toplevel = |identifier: Seq<char>| toplevel_of_identifier(live.toplevels@, identifier);
    assert forall|id: u64| #[trigger] identifier(id) is Some implies toplevel(identifier(id)->0)
        == Some(id) by {
        lemma_toplevel_returns(live.toplevels@, id);
    }
    lemma_found_returns(sources.toplevels, identifier, toplevel);
}

impl LiveSources {
    /// The position of the first output with a number.
    pub(crate) fn find_output(&self, id: u64) -> (r: Option<usize>)
        ensures
            match r {
                Some(i) => i < self.outputs@.len() && output_at(self.outputs@, id) == Some(
                    self.outputs@[i as int],
                ),
                None => output_at(self.outputs@, id) is None,
            },
    {
        let mut i: usize = 0;
        proof {
            assert(self.outputs@.skip(0) =~= self.outputs@);
        }
        while i < self.outputs.len()
            invariant
                i <= self.outputs@.len(),
                output_at(self.outputs@, id) == output_at(self.outputs@.skip(i as int), id),
            decreases self.outputs@.len() - i,
        {
            proof {
                assert(self.outputs@.skip(i as int).skip(1) =~= self.outputs@.skip(i + 1));
            }
            if self.outputs[i].id == id {
                return Some(i);
            }
            i = i + 1;
        }
        None
    }

    /// The number of the first output with a name.
    fn output_for_name(&self, name: &str) -> (r: Option<u64>)
        ensures
            r == output_of_name(self.outputs@, name@),
    {
        let mut i: usize = 0;
        proof {
            assert(self.outputs@.skip(0) =~= self.outputs@);
        }
        while i < self.outputs.len()
            invariant
                i <= self.outputs@.len(),
                output_of_name(self.outputs@, name@) == output_of_name(
                    self.outputs@.skip(i as int),
                    name@,
                ),
            decreases self.outputs@.len() - i,
        {
            proof {
                assert(self.outputs@.skip(i as int).skip(1) =~= self.outputs@.skip(i + 1));
            }
            if self.outputs[i].known {
                if let Some(own) = &self.outputs[i].name {
                    if str_eq(own.as_str(), name) {
                        return Some(self.outputs[i].id);
                    }
                }
            }
            i = i + 1;
        }
        None
    }

    /// The position of the first window with a number.
    pub(crate) fn find_toplevel(&self, id: u64) -> (r: Option<usize>)
        ensures
            match r {
                Some(i) => i < self.toplevels@.len() && toplevel_at(self.toplevels@, id) == Some(
                    self.toplevels@[i as int],
                ),
                None => toplevel_at(self.toplevels@, id) is None,
            },
    {
        let mut i: usize = 0;
        proof {
            assert(self.toplevels@.skip(0) =~= self.toplevels@);
        }
        while i < self.toplevels.len()
            invariant
                i <= self.toplevels@.len(),
                toplevel_at(self.toplevels@, id) == toplevel_at(self.toplevels@.skip(i as int), id),
            decreases self.toplevels@.len() - i,
        {
            proof {
                assert(self.toplevels@.skip(i as int).skip(1) =~= self.toplevels@.skip(i + 1));
            }
            if self.toplevels[i].id == id {
                return Some(i);
            }
            i = i + 1;
        }
        None
    }

    /// The number of the first window with an identifier.
    fn toplevel_for_identifier(&self, identifier: &str) -> (r: Option<u64>)
        ensures
            r == toplevel_of_identifier(self.toplevels@, identifier@),
    {
        let mut i: usize = 0;
        proof {
            assert(self.toplevels@.skip(0) =~= self.toplevels@);
        }
        while i < self.toplevels.len()
            invariant
                i <= self.toplevels@.len(),
                toplevel_of_identifier(self.toplevels@, identifier@) == toplevel_of_identifier(
                    self.toplevels@.skip(i as int),
                    identifier@,
                ),
            decreases self.toplevels@.len() - i,
        {
            proof {
                assert(self.toplevels@.skip(i as int).skip(1) =~= self.toplevels@.skip(i + 1));
            }
            if str_eq(self.toplevels[i].identifier.as_str(), identifier) {
                return Some(self.toplevels[i].id);
            }
            i = i + 1;
        }
        None
    }

    /// The names of outputs; none where one has no name.
    fn names_of_outputs(&self, ids: &Vec<u64>) -> (r: Option<Vec<String>>)
        ensures
            match r {
                Some(names) => all_found(ids@, |id: u64| name_of_output(self.outputs@, id)) == Some(
                    views(names@),
                ),
                None => all_found(ids@, |id: u64| name_of_output(self.outputs@, id)) is None,
            },
    {
        let ghost find = |id: u64| name_of_output(self.outputs@, id);
        let mut names: Vec<String> = Vec::new();
        let mut i: usize = 0;
        proof {
            assert(ids@.take(0) =~= Seq::<u64>::empty());
            assert(views(names@) =~= Seq::<Seq<char>>::empty());
        }
        while i < ids.len()
            invariant
                i <= ids@.len(),
                find == (|id: u64| name_of_output(self.outputs@, id)),
                all_found(ids@.take(i as int), find) == Some(views(names@)),
            decreases ids@.len() - i,
        {
            let ghost before = names@;
            proof {
                assert(ids@.take(i + 1).drop_last() =~= ids@.take(i as int));
                assert(ids@.take(i + 1).last() == ids@[i as int]);
            }
            let mut found: Option<String> = None;
            if let Some(k) = self.find_output(ids[i]) {
                if self.outputs[k].known {
                    found = self.outputs[k].name.clone();
                }
            }
            match found {
                Some(name) => {
                    names.push(name);
                    proof {
                        assert(views(names@) =~= views(before).push(name@));
                    }
                },
                None => {
                    proof {
                        lemma_missing(ids@, find, i + 1);
                    }
                    return None;
                },
            }
            i = i + 1;
        }
        proof {
            assert(ids@.take(ids@.len() as int) =~= ids@);
        }
        Some(names)
    }

    /// The identifiers of windows; none where one is not there.
    fn identifiers_of_toplevels(&self, ids: &Vec<u64>) -> (r: Option<Vec<String>>)
        ensures
            match r {
                Some(names) => all_found(
                    ids@,
                    |id: u64| identifier_of_toplevel(self.toplevels@, id),
                ) == Some(views(names@)),
                None => all_found(
                    ids@,
                    |id: u64| identifier_of_toplevel(self.toplevels@, id),
                ) is None,
            },
    {
        let ghost find = |id: u64| identifier_of_toplevel(self.toplevels@, id);
        let mut names: Vec<String> = Vec::new();
        let mut i: usize = 0;
        proof {
            assert(ids@.take(0) =~= Seq::<u64>::empty());
            assert(views(names@) =~= Seq::<Seq<char>>::empty());
        }
        while i < ids.len()
            invariant
                i <= ids@.len(),
                find == (|id: u64| identifier_of_toplevel(self.toplevels@, id)),
                all_found(ids@.take(i as int), find) == Some(views(names@)),
            decreases ids@.len() - i,
        {
            let ghost before = names@;
            proof {
                assert(ids@.take(i + 1).drop_last() =~= ids@.take(i as int));
                assert(ids@.take(i + 1).last() == ids@[i as int]);
            }
            match self.find_toplevel(ids[i]) {
                Some(k) => {
                    let name = self.toplevels[k].identifier.clone();
                    names.push(name);
                    proof {
                        assert(views(names@) =~= views(before).push(name@));
                    }
                },
                None => {
                    proof {
                        lemma_missing(ids@, find, i + 1);
                    }
                    return None;
                },
            }
            i = i + 1;
        }
        proof {
            assert(ids@.take(ids@.len() as int) =~= ids@);
        }
        Some(names)
    }

    /// The outputs with names; none where one is not there.
    fn outputs_of_names(&self, names: &Vec<String>) -> (r: Option<Vec<u64>>)
        ensures
            match r {
                Some(ids) => all_found(
                    views(names@),
                    |name: Seq<char>| output_of_name(self.outputs@, name),
                ) == Some(ids@),
                None => all_found(
                    views(names@),
                    |name: Seq<char>| output_of_name(self.outputs@, name),
                ) is None,
            },
    {
        let ghost find = |name: Seq<char>| output_of_name(self.outputs@, name);
        let ghost keys = views(names@);
        let mut ids: Vec<u64> = Vec::new();
        let mut i: usize = 0;
        proof {
            assert(keys.take(0) =~= Seq::<Seq<char>>::empty());
        }
        while i < names.len()
            invariant
                i <= names@.len(),
                keys == views(names@),
                find == (|name: Seq<char>| output_of_name(self.outputs@, name)),
                all_found(keys.take(i as int), find) == Some(ids@),
            decreases names@.len() - i,
        {
            proof {
                assert(keys.take(i + 1).drop_last() =~= keys.take(i as int));
                assert(keys.take(i + 1).last() == names@[i as int]@);
            }
            match self.output_for_name(names[i].as_str()) {
                Some(id) => {
                    ids.push(id);
                },
                None => {
                    proof {
                        lemma_missing(keys, find, i + 1);
                    }
                    return None;
                },
            }
            i = i + 1;
        }
        proof {
            assert(keys.take(keys.len() as int) =~= keys);
        }
        Some(ids)
    }

    /// The windows with identifiers; none where one is not there.
    fn toplevels_of_identifiers(&self, names: &Vec<String>) -> (r: Option<Vec<u64>>)
        ensures
            match r {
                Some(ids) => all_found(
                    views(names@),
                    |name: Seq<char>| toplevel_of_identifier(self.toplevels@, name),
                ) == Some(ids@),
                None => all_found(
                    views(names@),
                    |name: Seq<char>| toplevel_of_identifier(self.toplevels@, name),
                ) is None,
            },
    {
        let ghost find = |name: Seq<char>| toplevel_of_identifier(self.toplevels@, name);
        let ghost keys = views(names@);
        let mut ids: Vec<u64> = Vec::new();
        let mut i: usize = 0;
        proof {
            assert(keys.take(0) =~= Seq::<Seq<char>>::empty());
        }
        while i < names.len()
            invariant
                i <= names@.len(),
                keys == views(names@),
                find == (|name: Seq<char>| toplevel_of_identifier(self.toplevels@, name)),
                all_found(keys.take(i as int), find) == Some(ids@),
            decreases names@.len() - i,
        {
            proof {
                assert(keys.take(i + 1).drop_last() =~= keys.take(i as int));
                assert(keys.take(i + 1).last() == names@[i as int]@);
            }
            match self.toplevel_for_identifier(names[i].as_str()) {
                Some(id) => {
                    ids.push(id);
                },
                None => {
                    proof {
                        lemma_missing(keys, find, i + 1);
                    }
                    return None;
                },
            }
            i = i + 1;
        }
        proof {
            assert(keys.take(keys.len() as int) =~= keys);
        }
        Some(ids)
    }
}

impl PersistedCaptureSources {
    /// The names of what is captured; none where something has no name.
    pub fn from_capture_sources(live: &LiveSources, sources: &CaptureSources) -> (r: Option<Self>)
        ensures
            persisted_view(r) == persisted(sources@, *live),
    {
        match live.names_of_outputs(&sources.outputs) {
            Some(outputs) => match live.identifiers_of_toplevels(&sources.toplevels) {
                Some(toplevels) => Some(PersistedCaptureSources { outputs, toplevels }),
                None => None,
            },
            None => None,
        }
    }

    /// What was captured; none where something is not there any more.
    pub fn to_capture_sources(&self, live: &LiveSources) -> (r: Option<CaptureSources>)
        ensures
            match r {
                Some(sources) => resolved(self@, *live) == Some(sources@),
                None => resolved(self@, *live) is None,
            },
    {
        match live.outputs_of_names(&self.outputs) {
            Some(outputs) => match live.toplevels_of_identifiers(&self.toplevels) {
                Some(toplevels) => Some(CaptureSources { outputs, toplevels }),
                None => None,
            },
            None => None,
        }
    }

    /// Whether everything that was captured is still there.
    pub fn resolves(&self, live: &LiveSources) -> (r: bool)
        ensures
            r == resolved(self@, *live) is Some,
    {
        self.to_capture_sources(live).is_some()
    }
}

/// An output that is found has the number and is one of the outputs; it is found where there is one.
pub proof fn law_output_is_found_by_number(outputs: Seq<OutputSource>, id: u64)
    ensures
        output_at(outputs, id) matches Some(output) ==> output.id == id && outputs.contains(output),
        output_at(outputs, id) is None <==> forall|i: int|
            0 <= i < outputs.len() ==> (#[trigger] outputs[i]).id != id,
    decreases outputs.len(),
{
    if outputs.len() > 0 {
        let rest = outputs.skip(1);
        law_output_is_found_by_number(rest, id);
        assert forall|i: int| 0 < i < outputs.len() implies #[trigger] outputs[i] == rest[i - 1] by {}
        if outputs[0].id == id {
            assert(outputs.contains(outputs[0]));
        } else {
            if let Some(output) = output_at(rest, id) {
                let k = choose|k: int| 0 <= k < rest.len() && rest[k] == output;
                assert(outputs[k + 1] == output);
                assert(outputs[k + 1].id == id);
            } else {
                assert forall|i: int| 0 <= i < outputs.len() implies (#[trigger] outputs[i]).id
                    != id by {
                    if i > 0 {
                        assert(rest[i - 1].id != id);
                    }
                }
            }
        }
    }
}

/// A window that is found has the number and is one of the windows; it is found where there is one.
pub proof fn law_window_is_found_by_number(toplevels: Seq<ToplevelSource>, id: u64)
    ensures
        toplevel_at(toplevels, id) matches Some(window) ==> window.id == id && toplevels.contains(
            window,
        ),
        toplevel_at(toplevels, id) is None <==> forall|i: int|
            0 <= i < toplevels.len() ==> (#[trigger] toplevels[i]).id != id,
    decreases toplevels.len(),
{
    if toplevels.len() > 0 {
        let rest = toplevels.skip(1);
        law_window_is_found_by_number(rest, id);
        if toplevels[0].id == id {
            assert(toplevels.contains(toplevels[0]));
        } else {
            if let Some(window) = toplevel_at(rest, id) {
                let k = choose|k: int| 0 <= k < rest.len() && rest[k] == window;
                assert(toplevels[k + 1] == window);
                assert(toplevels[k + 1].id == id);
            } else {
                assert forall|i: int| 0 <= i < toplevels.len() implies (#[trigger] toplevels[i]).id
                    != id by {
                    if i > 0 {
                        assert(rest[i - 1].id != id);
                    }
                }
            }
        }
    }
}

/// A name that is kept leads to an output with that name, if there is one, and to none otherwise.
pub proof fn law_kept_name_leads_to_its_output(outputs: Seq<OutputSource>, name: Seq<char>)
    ensures
        output_of_name(outputs, name) matches Some(id) ==> exists|i: int|
            0 <= i < outputs.len() && (#[trigger] outputs[i]).id == id && outputs[i].known
                && outputs[i].name is Some && outputs[i].name->0@ == name,
        output_of_name(outputs, name) is None ==> forall|i: int|
            0 <= i < outputs.len() ==> !((#[trigger] outputs[i]).known && outputs[i].name is Some
                && outputs[i].name->0@ == name),
    decreases outputs.len(),
{
    if outputs.len() > 0 {
        let rest = outputs.skip(1);
        law_kept_name_leads_to_its_output(rest, name);
        if outputs[0].known && outputs[0].name is Some && outputs[0].name->0@ == name {
        } else {
            if let Some(id) = output_of_name(rest, name) {
                let k = choose|i: int|
                    0 <= i < rest.len() && (#[trigger] rest[i]).id == id && rest[i].known
                        && rest[i].name is Some && rest[i].name->0@ == name;
                assert(outputs[k + 1] == rest[k]);
            } else {
                assert forall|i: int| 0 <= i < outputs.len() implies !((#[trigger] outputs[i]).known
                    && outputs[i].name is Some && outputs[i].name->0@ == name) by {
                    if i > 0 {
                        assert(rest[i - 1] == outputs[i]);
                    }
                }
            }
        }
    }
}

/// An identifier that is kept leads to a window with that identifier, if there is one.
pub proof fn law_kept_identifier_leads_to_its_window(
    toplevels: Seq<ToplevelSource>,
    identifier: Seq<char>,
)
    ensures
        toplevel_of_identifier(toplevels, identifier) matches Some(id) ==> exists|i: int|
            0 <= i < toplevels.len() && (#[trigger] toplevels[i]).id == id
                && toplevels[i].identifier@ == identifier,
        toplevel_of_identifier(toplevels, identifier) is None ==> forall|i: int|
            0 <= i < toplevels.len() ==> (#[trigger] toplevels[i]).identifier@ != identifier,
    decreases toplevels.len(),
{
    if toplevels.len() > 0 {
        let rest = toplevels.skip(1);
        law_kept_identifier_leads_to_its_window(rest, identifier);
        if toplevels[0].identifier@ != identifier {
            if let Some(id) = toplevel_of_identifier(rest, identifier) {
                let k = choose|i: int|
                    0 <= i < rest.len() && (#[trigger] rest[i]).id == id && rest[i].identifier@
                        == identifier;
                assert(toplevels[k + 1] == rest[k]);
            } else {
                assert forall|i: int| 0 <= i < toplevels.len() implies (#[trigger] toplevels[i])
                    .identifier@ != identifier by {
                    if i > 0 {
                        assert(rest[i - 1] == toplevels[i]);
                    }
                }
            }
        }
    }
}

/// Where a part is missing, the whole is not taken up again: what is found has one for each key.
proof fn lemma_all_found_each<A, B>(keys: Seq<A>, find: spec_fn(A) -> Option<B>, i: int)
    requires
        0 <= i < keys.len(),
    ensures
        all_found(keys, find) matches Some(found) ==> found.len() == keys.len() && find(keys[i])
            == Some(found[i]),
    decreases keys.len(),
{
    if keys.len() > 1 {
        let init = keys.drop_last();
        lemma_all_found_each(
            init,
            find,
            if i < init.len() {
                i
            } else {
                0
            },
        );
    } else {
        reveal_with_fuel(all_found, 2);
        assert(keys.drop_last() =~= Seq::<A>::empty());
    }
}

/// What was shared before is shared again only as a whole: each output that was kept leads to an output
/// with its name, each window to one with its identifier, in the same order.
pub proof fn law_sharing_is_taken_up_as_a_whole(
    kept: PersistedView,
    live: LiveSources,
    i: int,
)
    ensures
        resolved(kept, live) matches Some(sources) ==> {
            &&& sources.outputs.len() == kept.outputs.len() || kept.outputs.len() == 0
            &&& sources.toplevels.len() == kept.toplevels.len() || kept.toplevels.len() == 0
            &&& 0 <= i < kept.outputs.len() ==> exists|k: int|
                0 <= k < live.outputs@.len() && (#[trigger] live.outputs@[k]).id
                    == sources.outputs[i] && live.outputs@[k].name is Some
                    && live.outputs@[k].name->0@ == kept.outputs[i]
            &&& 0 <= i < kept.toplevels.len() ==> exists|k: int|
                0 <= k < live.toplevels@.len() && (#[trigger] live.toplevels@[k]).id
                    == sources.toplevels[i] && live.toplevels@[k].identifier@ == kept.toplevels[i]
        },
{
    let find_output = |name: Seq<char>| output_of_name(live.outputs@, name);
    let find_window = |identifier: Seq<char>| toplevel_of_identifier(live.toplevels@, identifier);
    if kept.outputs.len() > 0 {
        let k = if 0 <= i < kept.outputs.len() {
            i
        } else {
            0
        };
        lemma_all_found_each(kept.outputs, find_output, k);
        law_kept_name_leads_to_its_output(live.outputs@, kept.outputs[k]);
    }
    if kept.toplevels.len() > 0 {
        let k = if 0 <= i < kept.toplevels.len() {
            i
        } else {
            0
        };
        lemma_all_found_each(kept.toplevels, find_window, k);
        law_kept_identifier_leads_to_its_window(live.toplevels@, kept.toplevels[k]);
    }
}

} // verus!
