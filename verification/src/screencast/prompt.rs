//! What the user is asked when a screen is shared.

use crate::desktop_entries::{
    all_readable, describe, describe_among, described, file_views, finds_by_class_and_id,
    load_desktop_entries, readable, DesktopFile, FileView,
};
use crate::remote_desktop::dialog::{persist_options, Args as RemoteArgs};
use crate::remote_desktop::RemoteStart;
use crate::screencast::dialog::{Args, OutputChoice, ToplevelChoice};
use crate::screencast::{CaptureSources, CaptureView, OutputSource};
use crate::text::{view_opt, views};
use vstd::prelude::*;

verus! {

/// A window that can be shared.
#[derive(Debug)]
pub struct ToplevelListing {
    pub id: u64,
    pub title: String,
    pub app_id: String,
}

/// Outputs by their numbers and names.
pub open spec fn output_names(outputs: Seq<OutputChoice>) -> Seq<(u64, Option<Seq<char>>)> {
    outputs.map_values(|output: OutputChoice| (output.id, view_opt(output.name)))
}

/// The outputs that are known, in their order.
pub open spec fn known_outputs(outputs: Seq<OutputSource>) -> Seq<(u64, Option<Seq<char>>)>
    decreases outputs.len(),
{
    if outputs.len() == 0 {
        Seq::empty()
    } else {
        let rest = known_outputs(outputs.drop_last());
        if outputs.last().known {
            rest.push((outputs.last().id, view_opt(outputs.last().name)))
        } else {
            rest
        }
    }
}

/// Whether windows are offered each with its title and the icon of its application.
pub open spec fn offers_windows(
    choices: Seq<ToplevelChoice>,
    toplevels: Seq<ToplevelListing>,
    entries: Seq<FileView>,
    languages: Seq<Seq<char>>,
) -> bool {
    &&& choices.len() == toplevels.len()
    &&& forall|i: int|
        0 <= i < choices.len() ==> {
            &&& (#[trigger] choices[i]).id == toplevels[i].id
            &&& choices[i].title@ == toplevels[i].title@
            &&& view_opt(choices[i].icon) == described(entries, languages, toplevels[i].app_id@).1
            &&& finds_by_class_and_id(entries, languages, toplevels[i].app_id@)
        }
}

/// The outputs that are known.
fn list_outputs(outputs: &Vec<OutputSource>) -> (r: Vec<OutputChoice>)
    ensures
        output_names(r@) == known_outputs(outputs@),
{
    let mut r: Vec<OutputChoice> = Vec::new();
    let mut i: usize = 0;
    proof {
        assert(outputs@.take(0) =~= Seq::<OutputSource>::empty());
        assert(output_names(r@) =~= Seq::<(u64, Option<Seq<char>>)>::empty());
    }
    while i < outputs.len()
        invariant
            i <= outputs@.len(),
            output_names(r@) == known_outputs(outputs@.take(i as int)),
        decreases outputs@.len() - i,
    {
        let output = &outputs[i];
        proof {
            assert(outputs@.take(i + 1).drop_last() =~= outputs@.take(i as int));
            assert(outputs@.take(i + 1).last() == *output);
        }
        if output.known {
            let name = match &output.name {
                Some(name) => Some(name.clone()),
                None => None,
            };
            let ghost before = r@;
            r.push(OutputChoice { id: output.id, name });
            proof {
                assert(output_names(r@) =~= output_names(before).push(
                    (output.id, view_opt(output.name)),
                ));
            }
        }
        i = i + 1;
    }
    proof {
        assert(outputs@.take(i as int) =~= outputs@);
    }
    r
}

/// What can be shared: the outputs that are known, and the windows, each with the icon of its
/// application as the files tell of it.
pub fn gather_capture_sources(
    outputs: &Vec<OutputSource>,
    toplevels: &Vec<ToplevelListing>,
    files: &Vec<DesktopFile>,
    languages: &Vec<String>,
) -> (r: (Vec<OutputChoice>, Vec<ToplevelChoice>))
    ensures
        output_names(r.0@) == known_outputs(outputs@),
        offers_windows(
            r.1@,
            toplevels@,
            readable(file_views(files@), views(languages@)),
            views(languages@),
        ),
{
    let entries = load_desktop_entries(files, languages);
    let ghost all = file_views(entries@);
    let mut choices: Vec<ToplevelChoice> = Vec::new();
    let mut i: usize = 0;
    while i < toplevels.len()
        invariant
            i <= toplevels@.len(),
            choices@.len() == i,
            all == file_views(entries@),
            all_readable(file_views(entries@), views(languages@)),
            forall|j: int|
                0 <= j < i ==> {
                    &&& (#[trigger] choices@[j]).id == toplevels@[j].id
                    &&& choices@[j].title@ == toplevels@[j].title@
                    &&& view_opt(choices@[j].icon) == described(
                        all,
                        views(languages@),
                        toplevels@[j].app_id@,
                    ).1
                    &&& finds_by_class_and_id(all, views(languages@), toplevels@[j].app_id@)
                },
        decreases toplevels@.len() - i,
    {
        let toplevel = &toplevels[i];
        let (_name, icon) = describe_among(&entries, languages, toplevel.app_id.as_str());
        choices.push(ToplevelChoice { id: toplevel.id, title: toplevel.title.clone(), icon });
        i = i + 1;
    }
    (list_outputs(outputs), choices)
}

/// The request to share a screen, with the name of the application that makes it and what it can
/// be given.
pub fn show_screencast_prompt(
    session_handle: String,
    app_id: &str,
    multiple: bool,
    source_types: u32,
    outputs: &Vec<OutputSource>,
    toplevels: &Vec<ToplevelListing>,
    files: &Vec<DesktopFile>,
    languages: &Vec<String>,
) -> (r: Args)
    ensures
        r.session_handle == session_handle,
        r.multiple == multiple,
        r.source_types == source_types,
        output_names(r.outputs@) == known_outputs(outputs@),
        offers_windows(
            r.toplevels@,
            toplevels@,
            readable(file_views(files@), views(languages@)),
            views(languages@),
        ),
        view_opt(r.app_name) == described(
            readable(file_views(files@), views(languages@)),
            views(languages@),
            app_id@,
        ).0,
        finds_by_class_and_id(
            readable(file_views(files@), views(languages@)),
            views(languages@),
            app_id@,
        ),
        r.capture_sources@ == (CaptureView { outputs: Seq::empty(), toplevels: Seq::empty() }),
{
    let (outputs, toplevels) = gather_capture_sources(outputs, toplevels, files, languages);
    let (app_name, _icon) = describe(files, languages, app_id);
    Args {
        session_handle,
        multiple,
        source_types,
        outputs,
        toplevels,
        app_name,
        capture_sources: CaptureSources::new(),
    }
}

/// The request to control the desktop, with the name and the icon of the application that makes it.
/// Outputs and windows are offered where they are to be shared.
pub fn show_remote_desktop_prompt(
    session_handle: String,
    app_id: &str,
    start: RemoteStart,
    outputs: &Vec<OutputSource>,
    toplevels: &Vec<ToplevelListing>,
    files: &Vec<DesktopFile>,
    languages: &Vec<String>,
) -> (r: RemoteArgs)
    ensures
        r.session_handle == session_handle,
        (view_opt(r.app_name), view_opt(r.app_icon)) == described(
            readable(file_views(files@), views(languages@)),
            views(languages@),
            app_id@,
        ),
        finds_by_class_and_id(
            readable(file_views(files@), views(languages@)),
            views(languages@),
            app_id@,
        ),
        r.device_types == start.device_types,
        r.persist_options@ == persist_options(start.persist_mode),
        r.selected_persist == 0,
        r.screen_cast_enabled == start.screen_cast_enabled,
        r.multiple == start.multiple,
        r.source_types == start.source_types,
        start.screen_cast_enabled ==> {
            &&& output_names(r.outputs@) == known_outputs(outputs@)
            &&& offers_windows(
                r.toplevels@,
                toplevels@,
                readable(file_views(files@), views(languages@)),
                views(languages@),
            )
        },
        !start.screen_cast_enabled ==> r.outputs@.len() == 0 && r.toplevels@.len() == 0,
        r.capture_sources@ == (CaptureView { outputs: Seq::empty(), toplevels: Seq::empty() }),
{
    let (app_name, app_icon) = describe(files, languages, app_id);
    let (outputs, toplevels) = if start.screen_cast_enabled {
        gather_capture_sources(outputs, toplevels, files, languages)
    } else {
        (Vec::new(), Vec::new())
    };
    RemoteArgs::new(session_handle, app_name, app_icon, start, outputs, toplevels)
}

/// Every output that is known is offered under its number and its name, and no other is.
pub proof fn law_known_outputs_are_offered(outputs: Seq<OutputSource>, k: int, j: int)
    ensures
        0 <= k < outputs.len() && outputs[k].known ==> known_outputs(outputs).contains(
            (outputs[k].id, view_opt(outputs[k].name)),
        ),
        0 <= j < known_outputs(outputs).len() ==> exists|i: int|
            0 <= i < outputs.len() && (#[trigger] outputs[i]).known && (
                outputs[i].id,
                view_opt(outputs[i].name),
            ) == known_outputs(outputs)[j],
    decreases outputs.len(),
{
    if outputs.len() > 0 {
        let init = outputs.drop_last();
        let (all, rest) = (known_outputs(outputs), known_outputs(init));
        law_known_outputs_are_offered(init, k, j);
        if 0 <= k < outputs.len() && outputs[k].known {
            let entry = (outputs[k].id, view_opt(outputs[k].name));
            if k < init.len() {
                assert(init[k] == outputs[k]);
                let i = choose|i: int| 0 <= i < rest.len() && rest[i] == entry;
                assert(all[i] == entry);
            } else {
                assert(all.last() == entry);
            }
        }
        if 0 <= j < all.len() {
            if j < rest.len() {
                let i = choose|i: int|
                    0 <= i < init.len() && (#[trigger] init[i]).known && (
                        init[i].id,
                        view_opt(init[i].name),
                    ) == rest[j];
                assert(outputs[i] == init[i]);
            } else {
                assert(outputs[outputs.len() - 1].known);
            }
        }
    }
}

} // verus!
