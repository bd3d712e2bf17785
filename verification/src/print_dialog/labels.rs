//! What the labels of the values of options are.

use crate::config::print::{PresetView, PrintPreset};
use crate::label::{plain_message, plain_text, Label, LabelView};
use crate::print_dialog::state::PrintDialog;
use crate::text::{concat, str_eq};
use vstd::prelude::*;

verus! {

/// The name under which a backend gives a label to a value of an option.
pub open spec fn translation_key(option: Seq<char>, value: Seq<char>) -> Seq<char> {
    "OPT#"@ + option + "#"@ + value
}

/// The label that the backend gives to a value of an option; the value itself where it gives none.
pub open spec fn backend_text(
    translations: Map<Seq<char>, Seq<char>>,
    option: Seq<char>,
    value: Seq<char>,
) -> LabelView {
    let key = translation_key(option, value);
    if translations.dom().contains(key) {
        plain_text(translations[key])
    } else {
        plain_text(value)
    }
}

/// The label of a number of sides.
pub open spec fn sides_text(translations: Map<Seq<char>, Seq<char>>, raw: Seq<char>) -> LabelView {
    if raw == "one-sided"@ {
        plain_message("sides-one-sided"@)
    } else if raw == "two-sided-long-edge"@ {
        plain_message("sides-two-sided-long-edge"@)
    } else if raw == "two-sided-short-edge"@ {
        plain_message("sides-two-sided-short-edge"@)
    } else {
        backend_text(translations, "sides"@, raw)
    }
}

/// The label of a paper tray.
pub open spec fn tray_text(translations: Map<Seq<char>, Seq<char>>, raw: Seq<char>) -> LabelView {
    if raw == "auto"@ {
        plain_message("media-source-auto"@)
    } else if raw == "main"@ {
        plain_message("media-source-main"@)
    } else if raw == "manual"@ {
        plain_message("media-source-manual"@)
    } else if raw == "by-pass-tray"@ {
        plain_message("media-source-by-pass-tray"@)
    } else if raw == "top"@ {
        plain_message("media-source-top"@)
    } else if raw == "middle"@ {
        plain_message("media-source-middle"@)
    } else if raw == "bottom"@ {
        plain_message("media-source-bottom"@)
    } else if raw == "envelope"@ {
        plain_message("media-source-envelope"@)
    } else if raw == "large-capacity"@ {
        plain_message("media-source-large-capacity"@)
    } else {
        backend_text(translations, "media-source"@, raw)
    }
}

/// The label of a type of paper.
pub open spec fn media_type_text(translations: Map<Seq<char>, Seq<char>>, raw: Seq<char>) -> LabelView {
    if raw == "auto"@ {
        plain_message("media-type-auto"@)
    } else if raw == "stationery"@ {
        plain_message("media-type-stationery"@)
    } else if raw == "stationery-letterhead"@ {
        plain_message("media-type-stationery-letterhead"@)
    } else if raw == "stationery-lightweight"@ {
        plain_message("media-type-stationery-lightweight"@)
    } else if raw == "stationery-heavyweight"@ {
        plain_message("media-type-stationery-heavyweight"@)
    } else if raw == "cardstock"@ {
        plain_message("media-type-cardstock"@)
    } else if raw == "labels"@ {
        plain_message("media-type-labels"@)
    } else if raw == "envelope"@ {
        plain_message("media-type-envelope"@)
    } else if raw == "transparency"@ {
        plain_message("media-type-transparency"@)
    } else if raw == "recycled"@ {
        plain_message("media-type-recycled"@)
    } else if raw == "photographic"@ {
        plain_message("media-type-photographic"@)
    } else if raw == "photographic-glossy"@ {
        plain_message("media-type-photographic-glossy"@)
    } else if raw == "photographic-matte"@ {
        plain_message("media-type-photographic-matte"@)
    } else {
        backend_text(translations, "media-type"@, raw)
    }
}

/// The label of a quality.
pub open spec fn quality_text(translations: Map<Seq<char>, Seq<char>>, raw: Seq<char>) -> LabelView {
    if raw == "3"@ {
        plain_message("print-quality-draft"@)
    } else if raw == "4"@ {
        plain_message("print-quality-normal"@)
    } else if raw == "5"@ {
        plain_message("print-quality-high"@)
    } else {
        backend_text(translations, "print-quality"@, raw)
    }
}

/// The name of a preset as it is shown.
pub open spec fn preset_text(preset: PresetView) -> LabelView {
    if preset.is_builtin {
        if preset.id == "builtin-color"@ {
            plain_message("preset-builtin-color"@)
        } else if preset.id == "builtin-bw"@ {
            plain_message("preset-builtin-bw"@)
        } else {
            plain_message("preset-builtin-default"@)
        }
    } else {
        plain_text(preset.name)
    }
}

/// The label that the backend gives to a value of an option; the value itself where it gives none.
pub fn backend_label(dialog: &PrintDialog, option: &str, value: &str) -> (r: Label)
    ensures
        r@ == backend_text(dialog@.translations, option@, value@),
{
    proof {
        reveal(PrintDialog::model);
    }
    let mut key = concat("OPT#", option);
    key.append("#");
    key.append(value);
    match dialog.translations.get(key.as_str()) {
        Some(text) => Label::text(text.clone()),
        None => Label::text(value.to_owned()),
    }
}

/// The label of a number of sides.
pub fn sides_label(dialog: &PrintDialog, raw: &str) -> (r: Label)
    ensures
        r@ == sides_text(dialog@.translations, raw@),
{
    if str_eq(raw, "one-sided") {
        Label::message("sides-one-sided")
    } else if str_eq(raw, "two-sided-long-edge") {
        Label::message("sides-two-sided-long-edge")
    } else if str_eq(raw, "two-sided-short-edge") {
        Label::message("sides-two-sided-short-edge")
    } else {
        backend_label(dialog, "sides", raw)
    }
}

/// The label of a paper tray.
pub fn tray_label(dialog: &PrintDialog, raw: &str) -> (r: Label)
    ensures
        r@ == tray_text(dialog@.translations, raw@),
{
    if str_eq(raw, "auto") {
        Label::message("media-source-auto")
    } else if str_eq(raw, "main") {
        Label::message("media-source-main")
    } else if str_eq(raw, "manual") {
        Label::message("media-source-manual")
    } else if str_eq(raw, "by-pass-tray") {
        Label::message("media-source-by-pass-tray")
    } else if str_eq(raw, "top") {
        Label::message("media-source-top")
    } else if str_eq(raw, "middle") {
        Label::message("media-source-middle")
    } else if str_eq(raw, "bottom") {
        Label::message("media-source-bottom")
    } else if str_eq(raw, "envelope") {
        Label::message("media-source-envelope")
    } else if str_eq(raw, "large-capacity") {
        Label::message("media-source-large-capacity")
    } else {
        backend_label(dialog, "media-source", raw)
    }
}

/// The label of a type of paper.
pub fn media_type_label(dialog: &PrintDialog, raw: &str) -> (r: Label)
    ensures
        r@ == media_type_text(dialog@.translations, raw@),
{
    if str_eq(raw, "auto") {
        Label::message("media-type-auto")
    } else if str_eq(raw, "stationery") {
        Label::message("media-type-stationery")
    } else if str_eq(raw, "stationery-letterhead") {
        Label::message("media-type-stationery-letterhead")
    } else if str_eq(raw, "stationery-lightweight") {
        Label::message("media-type-stationery-lightweight")
    } else if str_eq(raw, "stationery-heavyweight") {
        Label::message("media-type-stationery-heavyweight")
    } else if str_eq(raw, "cardstock") {
        Label::message("media-type-cardstock")
    } else if str_eq(raw, "labels") {
        Label::message("media-type-labels")
    } else if str_eq(raw, "envelope") {
        Label::message("media-type-envelope")
    } else if str_eq(raw, "transparency") {
        Label::message("media-type-transparency")
    } else if str_eq(raw, "recycled") {
        Label::message("media-type-recycled")
    } else if str_eq(raw, "photographic") {
        Label::message("media-type-photographic")
    } else if str_eq(raw, "photographic-glossy") {
        Label::message("media-type-photographic-glossy")
    } else if str_eq(raw, "photographic-matte") {
        Label::message("media-type-photographic-matte")
    } else {
        backend_label(dialog, "media-type", raw)
    }
}

/// The label of a quality.
pub fn quality_label(dialog: &PrintDialog, raw: &str) -> (r: Label)
    ensures
        r@ == quality_text(dialog@.translations, raw@),
{
    if str_eq(raw, "3") {
        Label::message("print-quality-draft")
    } else if str_eq(raw, "4") {
        Label::message("print-quality-normal")
    } else if str_eq(raw, "5") {
        Label::message("print-quality-high")
    } else {
        backend_label(dialog, "print-quality", raw)
    }
}

/// The name of a preset as it is shown.
pub fn preset_display_name(preset: &PrintPreset) -> (r: Label)
    ensures
        r@ == preset_text(preset@),
{
    if preset.is_builtin {
        if str_eq(preset.id.as_str(), "builtin-color") {
            Label::message("preset-builtin-color")
        } else if str_eq(preset.id.as_str(), "builtin-bw") {
            Label::message("preset-builtin-bw")
        } else {
            Label::message("preset-builtin-default")
        }
    } else {
        Label::text(preset.name.clone())
    }
}

/// The label of a number of sides that is known is named by it; others are labelled by the backend.
pub proof fn law_known_sides_have_their_labels(
    translations: Map<Seq<char>, Seq<char>>,
    raw: Seq<char>,
)
    ensures
        raw == "one-sided"@ ==> sides_text(translations, raw) == plain_message("sides-"@ + raw),
        raw == "two-sided-long-edge"@
            ==> sides_text(translations, raw) == plain_message("sides-"@ + raw),
        raw == "two-sided-short-edge"@
            ==> sides_text(translations, raw) == plain_message("sides-"@ + raw),
        raw != "one-sided"@ && raw != "two-sided-long-edge"@
            && raw != "two-sided-short-edge"@
            ==> sides_text(translations, raw) == backend_text(translations, "sides"@, raw),
{
    reveal_strlit("sides-");
    reveal_strlit("one-sided");
    reveal_strlit("sides-one-sided");
    assert("sides-"@ + "one-sided"@ =~= "sides-one-sided"@);
    reveal_strlit("two-sided-long-edge");
    reveal_strlit("sides-two-sided-long-edge");
    assert("sides-"@ + "two-sided-long-edge"@ =~= "sides-two-sided-long-edge"@);
    reveal_strlit("two-sided-short-edge");
    reveal_strlit("sides-two-sided-short-edge");
    assert("sides-"@ + "two-sided-short-edge"@ =~= "sides-two-sided-short-edge"@);
}

/// The label of a tray that is known is named by it; others are labelled by the backend.
pub proof fn law_known_trays_have_their_labels(
    translations: Map<Seq<char>, Seq<char>>,
    raw: Seq<char>,
)
    ensures
        raw == "auto"@ ==> tray_text(translations, raw) == plain_message("media-source-"@ + raw),
        raw == "main"@ ==> tray_text(translations, raw) == plain_message("media-source-"@ + raw),
        raw == "manual"@ ==> tray_text(translations, raw) == plain_message("media-source-"@ + raw),
        raw == "by-pass-tray"@
            ==> tray_text(translations, raw) == plain_message("media-source-"@ + raw),
        raw == "top"@ ==> tray_text(translations, raw) == plain_message("media-source-"@ + raw),
        raw == "middle"@ ==> tray_text(translations, raw) == plain_message("media-source-"@ + raw),
        raw == "bottom"@ ==> tray_text(translations, raw) == plain_message("media-source-"@ + raw),
        raw == "envelope"@
            ==> tray_text(translations, raw) == plain_message("media-source-"@ + raw),
        raw == "large-capacity"@
            ==> tray_text(translations, raw) == plain_message("media-source-"@ + raw),
        raw != "auto"@ && raw != "main"@ && raw != "manual"@ && raw != "by-pass-tray"@
            && raw != "top"@ && raw != "middle"@ && raw != "bottom"@ && raw != "envelope"@
            && raw != "large-capacity"@
            ==> tray_text(translations, raw) == backend_text(translations, "media-source"@, raw),
{
    reveal_strlit("media-source-");
    reveal_strlit("auto");
    reveal_strlit("media-source-auto");
    assert("media-source-"@ + "auto"@ =~= "media-source-auto"@);
    reveal_strlit("main");
    reveal_strlit("media-source-main");
    assert("media-source-"@ + "main"@ =~= "media-source-main"@);
    reveal_strlit("manual");
    reveal_strlit("media-source-manual");
    assert("media-source-"@ + "manual"@ =~= "media-source-manual"@);
    reveal_strlit("by-pass-tray");
    reveal_strlit("media-source-by-pass-tray");
    assert("media-source-"@ + "by-pass-tray"@ =~= "media-source-by-pass-tray"@);
    reveal_strlit("top");
    reveal_strlit("media-source-top");
    assert("media-source-"@ + "top"@ =~= "media-source-top"@);
    reveal_strlit("middle");
    reveal_strlit("media-source-middle");
    assert("media-source-"@ + "middle"@ =~= "media-source-middle"@);
    reveal_strlit("bottom");
    reveal_strlit("media-source-bottom");
    assert("media-source-"@ + "bottom"@ =~= "media-source-bottom"@);
    reveal_strlit("envelope");
    reveal_strlit("media-source-envelope");
    assert("media-source-"@ + "envelope"@ =~= "media-source-envelope"@);
    reveal_strlit("large-capacity");
    reveal_strlit("media-source-large-capacity");
    assert("media-source-"@ + "large-capacity"@ =~= "media-source-large-capacity"@);
}

/// The label of a type of paper that is known is named by it; others are labelled by the backend.
pub proof fn law_known_papers_have_their_labels(
    translations: Map<Seq<char>, Seq<char>>,
    raw: Seq<char>,
)
    ensures
        raw == "auto"@
            ==> media_type_text(translations, raw) == plain_message("media-type-"@ + raw),
        raw == "stationery"@
            ==> media_type_text(translations, raw) == plain_message("media-type-"@ + raw),
        raw == "stationery-letterhead"@
            ==> media_type_text(translations, raw) == plain_message("media-type-"@ + raw),
        raw == "stationery-lightweight"@
            ==> media_type_text(translations, raw) == plain_message("media-type-"@ + raw),
        raw == "stationery-heavyweight"@
            ==> media_type_text(translations, raw) == plain_message("media-type-"@ + raw),
        raw == "cardstock"@
            ==> media_type_text(translations, raw) == plain_message("media-type-"@ + raw),
        raw == "labels"@
            ==> media_type_text(translations, raw) == plain_message("media-type-"@ + raw),
        raw == "envelope"@
            ==> media_type_text(translations, raw) == plain_message("media-type-"@ + raw),
        raw == "transparency"@
            ==> media_type_text(translations, raw) == plain_message("media-type-"@ + raw),
        raw == "recycled"@
            ==> media_type_text(translations, raw) == plain_message("media-type-"@ + raw),
        raw == "photographic"@
            ==> media_type_text(translations, raw) == plain_message("media-type-"@ + raw),
        raw == "photographic-glossy"@
            ==> media_type_text(translations, raw) == plain_message("media-type-"@ + raw),
        raw == "photographic-matte"@
            ==> media_type_text(translations, raw) == plain_message("media-type-"@ + raw),
        raw != "auto"@ && raw != "stationery"@ && raw != "stationery-letterhead"@
            && raw != "stationery-lightweight"@ && raw != "stationery-heavyweight"@
            && raw != "cardstock"@ && raw != "labels"@ && raw != "envelope"@
            && raw != "transparency"@ && raw != "recycled"@ && raw != "photographic"@
            && raw != "photographic-glossy"@
            && raw != "photographic-matte"@
            ==> media_type_text(translations, raw) == backend_text(translations, "media-type"@, raw),
{
    reveal_strlit("media-type-");
    reveal_strlit("auto");
    reveal_strlit("media-type-auto");
    assert("media-type-"@ + "auto"@ =~= "media-type-auto"@);
    reveal_strlit("stationery");
    reveal_strlit("media-type-stationery");
    assert("media-type-"@ + "stationery"@ =~= "media-type-stationery"@);
    reveal_strlit("stationery-letterhead");
    reveal_strlit("media-type-stationery-letterhead");
    assert("media-type-"@ + "stationery-letterhead"@ =~= "media-type-stationery-letterhead"@);
    reveal_strlit("stationery-lightweight");
    reveal_strlit("media-type-stationery-lightweight");
    assert("media-type-"@ + "stationery-lightweight"@ =~= "media-type-stationery-lightweight"@);
    reveal_strlit("stationery-heavyweight");
    reveal_strlit("media-type-stationery-heavyweight");
    assert("media-type-"@ + "stationery-heavyweight"@ =~= "media-type-stationery-heavyweight"@);
    reveal_strlit("cardstock");
    reveal_strlit("media-type-cardstock");
    assert("media-type-"@ + "cardstock"@ =~= "media-type-cardstock"@);
    reveal_strlit("labels");
    reveal_strlit("media-type-labels");
    assert("media-type-"@ + "labels"@ =~= "media-type-labels"@);
    reveal_strlit("envelope");
    reveal_strlit("media-type-envelope");
    assert("media-type-"@ + "envelope"@ =~= "media-type-envelope"@);
    reveal_strlit("transparency");
    reveal_strlit("media-type-transparency");
    assert("media-type-"@ + "transparency"@ =~= "media-type-transparency"@);
    reveal_strlit("recycled");
    reveal_strlit("media-type-recycled");
    assert("media-type-"@ + "recycled"@ =~= "media-type-recycled"@);
    reveal_strlit("photographic");
    reveal_strlit("media-type-photographic");
    assert("media-type-"@ + "photographic"@ =~= "media-type-photographic"@);
    reveal_strlit("photographic-glossy");
    reveal_strlit("media-type-photographic-glossy");
    assert("media-type-"@ + "photographic-glossy"@ =~= "media-type-photographic-glossy"@);
    reveal_strlit("photographic-matte");
    reveal_strlit("media-type-photographic-matte");
    assert("media-type-"@ + "photographic-matte"@ =~= "media-type-photographic-matte"@);
}

/// The qualities three, four and five are draft, normal and high; others are labelled by the backend.
pub proof fn law_known_qualities_have_their_labels(
    translations: Map<Seq<char>, Seq<char>>,
    raw: Seq<char>,
)
    ensures
        quality_text(translations, "3"@) == plain_message("print-quality-draft"@),
        quality_text(translations, "4"@) == plain_message("print-quality-normal"@),
        quality_text(translations, "5"@) == plain_message("print-quality-high"@),
        raw != "3"@ && raw != "4"@ && raw != "5"@ ==> quality_text(translations, raw)
            == backend_text(translations, "print-quality"@, raw),
{
    reveal_strlit("3");
    reveal_strlit("4");
    reveal_strlit("5");
    assert("3"@[0] == '3' && "4"@[0] == '4' && "5"@[0] == '5');
}

/// A value is labelled as the backend translates it, and by itself where it does not.
pub proof fn law_translations_of_the_backend_are_shown(
    translations: Map<Seq<char>, Seq<char>>,
    option: Seq<char>,
    value: Seq<char>,
    text: Seq<char>,
)
    ensures
        backend_text(
            translations.insert("OPT#"@ + option + "#"@ + value, text),
            option,
            value,
        ) == plain_text(text),
        !translations.dom().contains("OPT#"@ + option + "#"@ + value) ==> backend_text(
            translations,
            option,
            value,
        ) == plain_text(value),
{
}

/// A preset of the user is shown under its name, and one of the house under a message of its own.
pub proof fn law_presets_are_shown_by_their_names(preset: PresetView)
    ensures
        !preset.is_builtin ==> preset_text(preset) == plain_text(preset.name),
        preset.is_builtin && preset.id == "builtin-color"@ ==> preset_text(preset) == plain_message(
            "preset-builtin-color"@,
        ),
        preset.is_builtin && preset.id == "builtin-bw"@ ==> preset_text(preset) == plain_message(
            "preset-builtin-bw"@,
        ),
        preset.is_builtin && preset.id == "builtin-default"@ ==> preset_text(preset)
            == plain_message("preset-builtin-default"@),
{
    reveal_strlit("builtin-color");
    reveal_strlit("builtin-bw");
    reveal_strlit("builtin-default");
    assert("builtin-color"@.len() == 13 && "builtin-bw"@.len() == 10);
    assert("builtin-default"@.len() == 15);
}

} // verus!
