//! What an application was answered, handed back as hints, opens the dialog as it was.

use crate::print_dialog::choices::{ColorMode, LayoutDirection, Margins, Orientation, PageSetView, ScalingMode};
use crate::print_dialog::hints::{
    code_of_quality, hinted_margins, hinted_pages, hinted_ranges, pages_per_sheet, sides_of_duplex,
};
use crate::print_dialog::page_range::{
    canonical_range, has_successors, law_page_range_round_trip, shown_range, valid_range, zero_based,
};
use crate::print_dialog::printers::media_names;
use crate::print_dialog::response::{
    basic_settings, duplex_of_sides, flag_text, margins_of, number_up, quality_of_code,
    selected_size, with_flag, with_optional, with_pages, with_paper, xdg_page_setup, xdg_settings,
};
use crate::print_dialog::state::DialogView;
use crate::seqs::{at, first_position, lemma_first_position, lemma_first_position_of, position};
use crate::text::{decimal, law_decimal_reads_back};
use crate::value::{exact_length, flag_of, text_of, ValueView};
use vstd::prelude::*;

verus! {

/// The names of the settings are different from each other.
proof fn lemma_setting_names()
    ensures
        "use-color"@.len() == 9 && "use-color"@[0] == 'u',
        "duplex"@.len() == 6,
        "n-copies"@.len() == 8 && "n-copies"@[0] == 'n',
        "collate"@.len() == 7 && "collate"@[0] == 'c',
        "reverse"@.len() == 7 && "reverse"@[0] == 'r',
        "orientation"@.len() == 11 && "orientation"@[0] == 'o',
        "quality"@.len() == 7 && "quality"@[0] == 'q',
        "scale"@.len() == 5,
        "number-up"@.len() == 9 && "number-up"@[0] == 'n',
        "number-up-layout"@.len() == 16,
        "print-pages"@.len() == 11 && "print-pages"@[0] == 'p' && "print-pages"@[2] == 'i',
        "page-set"@.len() == 8 && "page-set"@[0] == 'p',
        "page-ranges"@.len() == 11 && "page-ranges"@[0] == 'p' && "page-ranges"@[2] == 'g',
        "default-source"@.len() == 14,
        "media-type"@.len() == 10,
        "paper-format"@.len() == 12 && "paper-format"@[6] == 'f',
        "paper-width"@.len() == 11 && "paper-width"@[0] == 'p' && "paper-width"@[2] == 'p',
        "paper-height"@.len() == 12 && "paper-height"@[6] == 'h',
        "gtk-print-backgrounds"@.len() == 21,
        "gtk-print-header-footer"@.len() == 23,
{
    reveal_strlit("use-color");
    reveal_strlit("duplex");
    reveal_strlit("n-copies");
    reveal_strlit("collate");
    reveal_strlit("reverse");
    reveal_strlit("orientation");
    reveal_strlit("quality");
    reveal_strlit("scale");
    reveal_strlit("number-up");
    reveal_strlit("number-up-layout");
    reveal_strlit("print-pages");
    reveal_strlit("page-set");
    reveal_strlit("page-ranges");
    reveal_strlit("default-source");
    reveal_strlit("media-type");
    reveal_strlit("paper-format");
    reveal_strlit("paper-width");
    reveal_strlit("paper-height");
    reveal_strlit("gtk-print-backgrounds");
    reveal_strlit("gtk-print-header-footer");
}

/// What is found under a name.
pub open spec fn found(m: Map<Seq<char>, ValueView>, key: Seq<char>) -> Option<ValueView> {
    if m.dom().contains(key) {
        Some(m[key])
    } else {
        None
    }
}

/// What the settings that every answer holds are.
proof fn lemma_basic_settings(d: DialogView)
    ensures
        ({
            let s = basic_settings(d);
            &&& text_of(s, "use-color"@) == Some(flag_text(d.color_mode == ColorMode::Color))
            &&& text_of(s, "duplex"@) == Some(duplex_of_sides(at(d.duplex_values, d.duplex_index)))
            &&& text_of(s, "quality"@) == Some(
                quality_of_code(at(d.print_quality_values, d.print_quality_index)),
            )
            &&& text_of(s, "n-copies"@) == Some(decimal(d.copies as nat))
            &&& text_of(s, "collate"@) == Some(flag_text(d.collate))
            &&& text_of(s, "reverse"@) == Some(flag_text(d.reverse_order))
            &&& text_of(s, "orientation"@) == Some(d.orientation.spec_id())
            &&& text_of(s, "scale"@) == Some(
                if d.scaling == ScalingMode::Custom {
                    decimal(d.custom_scaling_input as nat)
                } else {
                    "100"@
                },
            )
            &&& text_of(s, "number-up"@) == Some(
                decimal(number_up(d.pages_per_sheet_index) as nat),
            )
            &&& text_of(s, "number-up-layout"@) == Some(d.layout_direction.spec_id())
            &&& found(s, "print-pages"@) is None
            &&& found(s, "page-set"@) is None
            &&& found(s, "page-ranges"@) is None
            &&& found(s, "default-source"@) is None
            &&& found(s, "media-type"@) is None
            &&& found(s, "paper-format"@) is None
            &&& found(s, "gtk-print-backgrounds"@) is None
            &&& found(s, "gtk-print-header-footer"@) is None
        }),
{
    lemma_setting_names();
}

/// The names under which the settings on pages and paper stand.
spec fn is_later_name(key: Seq<char>) -> bool {
    ||| key == "print-pages"@
    ||| key == "page-set"@
    ||| key == "page-ranges"@
    ||| key == "default-source"@
    ||| key == "media-type"@
    ||| key == "paper-format"@
    ||| key == "paper-width"@
    ||| key == "paper-height"@
    ||| key == "gtk-print-backgrounds"@
    ||| key == "gtk-print-header-footer"@
}

/// The settings on pages and paper leave the others as they are.
proof fn lemma_later_settings_frame(d: DialogView, key: Seq<char>)
    requires
        !is_later_name(key),
    ensures
        found(xdg_settings(d), key) == found(basic_settings(d), key),
{
}

/// What the settings on pages are.
proof fn lemma_page_settings(m: Map<Seq<char>, ValueView>, pages: PageSetView)
    requires
        found(m, "page-set"@) is None,
        found(m, "page-ranges"@) is None,
    ensures
        ({
            let s = with_pages(m, pages);
            &&& text_of(s, "print-pages"@) == Some(
                match pages {
                    PageSetView::All => "all"@,
                    PageSetView::Current => "current"@,
                    _ => "ranges"@,
                },
            )
            &&& text_of(s, "page-set"@) == match pages {
                PageSetView::Odd => Some("odd"@),
                PageSetView::Even => Some("even"@),
                _ => None,
            }
            &&& text_of(s, "page-ranges"@) == match pages {
                PageSetView::Custom(range) => Some(zero_based(range)),
                _ => None,
            }
            &&& forall|key: Seq<char>|
                key != "print-pages"@ && key != "page-set"@ && key != "page-ranges"@
                    ==> #[trigger] found(s, key) == found(m, key)
        }),
{
    lemma_setting_names();
}

/// What the settings on paper are.
proof fn lemma_paper_settings(m: Map<Seq<char>, ValueView>, d: DialogView)
    requires
        found(m, "default-source"@) is None,
        found(m, "media-type"@) is None,
        found(m, "paper-format"@) is None,
    ensures
        ({
            let s = with_paper(
                with_optional(
                    with_optional(
                        m,
                        "default-source"@,
                        at(d.media_source_values, d.paper_tray_index),
                    ),
                    "media-type"@,
                    at(d.media_type_values, d.paper_type_index),
                ),
                selected_size(d),
            );
            &&& text_of(s, "default-source"@) == at(d.media_source_values, d.paper_tray_index)
            &&& text_of(s, "media-type"@) == at(d.media_type_values, d.paper_type_index)
            &&& text_of(s, "paper-format"@) == match selected_size(d) {
                Some(m) => Some(m.name),
                None => None,
            }
            &&& forall|key: Seq<char>|
                key != "default-source"@ && key != "media-type"@ && key != "paper-format"@ && key
                    != "paper-width"@ && key != "paper-height"@ ==> #[trigger] found(s, key)
                    == found(m, key)
        }),
{
    lemma_setting_names();
}

/// What the settings that only some applications know are.
proof fn lemma_flag_settings(m: Map<Seq<char>, ValueView>, d: DialogView)
    requires
        found(m, "gtk-print-backgrounds"@) is None,
        found(m, "gtk-print-header-footer"@) is None,
    ensures
        ({
            let s = with_flag(
                with_flag(
                    m,
                    "gtk-print-backgrounds"@,
                    d.show_print_background_toggle,
                    d.print_background,
                ),
                "gtk-print-header-footer"@,
                d.show_print_header_footer_toggle,
                d.print_header_footer,
            );
            &&& flag_of(s, "gtk-print-backgrounds"@) == if d.show_print_background_toggle {
                Some(d.print_background)
            } else {
                None
            }
            &&& flag_of(s, "gtk-print-header-footer"@) == if d.show_print_header_footer_toggle {
                Some(d.print_header_footer)
            } else {
                None
            }
            &&& forall|key: Seq<char>|
                key != "gtk-print-backgrounds"@ && key != "gtk-print-header-footer"@
                    ==> #[trigger] found(s, key) == found(m, key)
        }),
{
    lemma_setting_names();
}

/// What the settings of an answer hold.
pub proof fn lemma_settings_hold(d: DialogView)
    ensures
        ({
            let s = xdg_settings(d);
            &&& text_of(s, "use-color"@) == Some(flag_text(d.color_mode == ColorMode::Color))
            &&& text_of(s, "duplex"@) == Some(duplex_of_sides(at(d.duplex_values, d.duplex_index)))
            &&& text_of(s, "quality"@) == Some(
                quality_of_code(at(d.print_quality_values, d.print_quality_index)),
            )
            &&& text_of(s, "n-copies"@) == Some(decimal(d.copies as nat))
            &&& text_of(s, "collate"@) == Some(flag_text(d.collate))
            &&& text_of(s, "reverse"@) == Some(flag_text(d.reverse_order))
            &&& text_of(s, "orientation"@) == Some(d.orientation.spec_id())
            &&& text_of(s, "scale"@) == Some(
                if d.scaling == ScalingMode::Custom {
                    decimal(d.custom_scaling_input as nat)
                } else {
                    "100"@
                },
            )
            &&& text_of(s, "number-up"@) == Some(
                decimal(number_up(d.pages_per_sheet_index) as nat),
            )
            &&& text_of(s, "number-up-layout"@) == Some(d.layout_direction.spec_id())
            &&& text_of(s, "print-pages"@) == Some(
                match d.page_selection {
                    PageSetView::All => "all"@,
                    PageSetView::Current => "current"@,
                    _ => "ranges"@,
                },
            )
            &&& text_of(s, "page-set"@) == match d.page_selection {
                PageSetView::Odd => Some("odd"@),
                PageSetView::Even => Some("even"@),
                _ => None,
            }
            &&& text_of(s, "page-ranges"@) == match d.page_selection {
                PageSetView::Custom(range) => Some(zero_based(range)),
                _ => None,
            }
            &&& text_of(s, "default-source"@) == at(d.media_source_values, d.paper_tray_index)
            &&& text_of(s, "media-type"@) == at(d.media_type_values, d.paper_type_index)
            &&& text_of(s, "paper-format"@) == match selected_size(d) {
                Some(m) => Some(m.name),
                None => None,
            }
            &&& flag_of(s, "gtk-print-backgrounds"@) == if d.show_print_background_toggle {
                Some(d.print_background)
            } else {
                None
            }
            &&& flag_of(s, "gtk-print-header-footer"@) == if d.show_print_header_footer_toggle {
                Some(d.print_header_footer)
            } else {
                None
            }
        }),
{
    lemma_setting_names();
    let basic = basic_settings(d);
    lemma_basic_settings(d);
    let pages = with_pages(basic, d.page_selection);
    lemma_page_settings(basic, d.page_selection);
    assert(found(pages, "default-source"@) is None);
    assert(found(pages, "media-type"@) is None);
    assert(found(pages, "paper-format"@) is None);
    assert(found(pages, "gtk-print-backgrounds"@) is None);
    assert(found(pages, "gtk-print-header-footer"@) is None);
    let paper = with_paper(
        with_optional(
            with_optional(pages, "default-source"@, at(d.media_source_values, d.paper_tray_index)),
            "media-type"@,
            at(d.media_type_values, d.paper_type_index),
        ),
        selected_size(d),
    );
    lemma_paper_settings(pages, d);
    assert(found(paper, "gtk-print-backgrounds"@) is None);
    assert(found(paper, "gtk-print-header-footer"@) is None);
    lemma_flag_settings(paper, d);
    let s = xdg_settings(d);
    lemma_later_settings_frame(d, "use-color"@);
    lemma_later_settings_frame(d, "duplex"@);
    lemma_later_settings_frame(d, "quality"@);
    lemma_later_settings_frame(d, "n-copies"@);
    lemma_later_settings_frame(d, "collate"@);
    lemma_later_settings_frame(d, "reverse"@);
    lemma_later_settings_frame(d, "orientation"@);
    lemma_later_settings_frame(d, "scale"@);
    lemma_later_settings_frame(d, "number-up"@);
    lemma_later_settings_frame(d, "number-up-layout"@);
    assert(found(s, "print-pages"@) == found(pages, "print-pages"@)) by {
        assert(found(s, "print-pages"@) == found(paper, "print-pages"@));
    }
    assert(found(s, "page-set"@) == found(pages, "page-set"@)) by {
        assert(found(s, "page-set"@) == found(paper, "page-set"@));
    }
    assert(found(s, "page-ranges"@) == found(pages, "page-ranges"@)) by {
        assert(found(s, "page-ranges"@) == found(paper, "page-ranges"@));
    }
    assert(found(s, "default-source"@) == found(paper, "default-source"@));
    assert(found(s, "media-type"@) == found(paper, "media-type"@));
    assert(found(s, "paper-format"@) == found(paper, "paper-format"@));
}


/// What the page setup of an answer holds.
pub proof fn lemma_page_setup_holds(d: DialogView)
    ensures
        ({
            let s = xdg_page_setup(d);
            let (top, bottom, left, right) = margins_of(d);
            &&& text_of(s, "Orientation"@) == Some(d.orientation.spec_id())
            &&& found(s, "MarginTop"@) == Some(exact_length(top as int))
            &&& found(s, "MarginBottom"@) == Some(exact_length(bottom as int))
            &&& found(s, "MarginLeft"@) == Some(exact_length(left as int))
            &&& found(s, "MarginRight"@) == Some(exact_length(right as int))
        }),
{
    reveal_strlit("Orientation");
    reveal_strlit("MarginTop");
    reveal_strlit("MarginBottom");
    reveal_strlit("MarginLeft");
    reveal_strlit("MarginRight");
    assert("Orientation"@.len() == 11 && "Orientation"@[0] == 'O');
    assert("MarginTop"@.len() == 9);
    assert("MarginBottom"@.len() == 12);
    assert("MarginLeft"@.len() == 10);
    assert("MarginRight"@.len() == 11 && "MarginRight"@[0] == 'M');
}

/// The words for a flag are different.
proof fn lemma_flag_words(flag: bool)
    ensures
        (flag_text(flag) == "true"@) == flag,
{
    reveal_strlit("true");
    reveal_strlit("false");
    assert("true"@.len() == 4 && "false"@.len() == 5);
}

/// The names of orientations and directions stand for them in hints too.
proof fn lemma_choice_words(orientation: Orientation, direction: LayoutDirection)
    ensures
        (orientation.spec_id() == "landscape"@) == (orientation == Orientation::Landscape),
        orientation.spec_id() != "reverse_landscape"@,
        orientation.spec_id() != "reverse-landscape"@,
        direction == if direction.spec_id() == "rltb"@ || direction.spec_id() == "rlbt"@ {
            LayoutDirection::RightToLeftTopToBottom
        } else if direction.spec_id() == "tblr"@ || direction.spec_id() == "btlr"@ {
            LayoutDirection::TopToBottomLeftToRight
        } else if direction.spec_id() == "tbrl"@ || direction.spec_id() == "btrl"@ {
            LayoutDirection::TopToBottomRightToLeft
        } else {
            LayoutDirection::LeftToRightTopToBottom
        },
{
    reveal_strlit("portrait");
    reveal_strlit("landscape");
    reveal_strlit("reverse_landscape");
    reveal_strlit("reverse-landscape");
    assert("portrait"@.len() == 8 && "landscape"@.len() == 9);
    assert("reverse_landscape"@.len() == 17 && "reverse-landscape"@.len() == 17);
    reveal_strlit("lrtb");
    reveal_strlit("rltb");
    reveal_strlit("tblr");
    reveal_strlit("tbrl");
    reveal_strlit("rlbt");
    reveal_strlit("btlr");
    reveal_strlit("btrl");
    assert("lrtb"@[0] == 'l' && "rltb"@[0] == 'r' && "tblr"@[0] == 't' && "tbrl"@[0] == 't');
    assert("rlbt"@[0] == 'r' && "btlr"@[0] == 'b' && "btrl"@[0] == 'b');
    assert("tblr"@[2] == 'l' && "tbrl"@[2] == 'r');
}

/// The pages that hints made from an answer ask for.
proof fn lemma_pages_restored(d: DialogView, otherwise: PageSetView)
    ensures
        hinted_pages(xdg_settings(d), otherwise) == match d.page_selection {
            PageSetView::Custom(range) => PageSetView::Custom(shown_range(range)),
            PageSetView::All => otherwise,
            other => other,
        },
        d.page_selection matches PageSetView::Custom(range) ==> (valid_range(range) ==> shown_range(
            range,
        ) == canonical_range(range)),
        hinted_ranges(xdg_settings(d)) is Some ==> has_successors(
            hinted_ranges(xdg_settings(d))->0,
        ),
{
    lemma_settings_hold(d);
    reveal_strlit("all");
    reveal_strlit("current");
    reveal_strlit("ranges");
    reveal_strlit("odd");
    reveal_strlit("even");
    assert("all"@.len() == 3 && "current"@.len() == 7 && "ranges"@.len() == 6);
    assert("odd"@.len() == 3 && "even"@.len() == 4);
    if let PageSetView::Custom(range) = d.page_selection {
        law_page_range_round_trip(range);
    }
}

/// The first position of a number of pages on a sheet is where it stands.
proof fn lemma_pages_per_sheet_position(i: usize)
    requires
        i < 6,
    ensures
        position(pages_per_sheet(), pages_per_sheet()[i as int]) == Some(i),
{
    lemma_first_position(pages_per_sheet(), pages_per_sheet()[i as int], i as int);
}

/// What a value has in a list is found again in the same list.
proof fn lemma_value_restored<T>(values: Seq<T>, index: Option<usize>)
    requires
        at(values, index) is Some,
    ensures
        at(values, position(values, at(values, index)->0)) == at(values, index),
{
    let value = at(values, index)->0;
    lemma_first_position_of(values, value);
    assert(values[index->0 as int] == value);
    assert(first_position(values, value) <= index->0);
}

/// The names of sides and qualities in hints stand for those that print backends have.
proof fn lemma_backend_words(value: Seq<char>)
    ensures
        is_side(value) ==> sides_of_duplex(duplex_of_sides(Some(value))) == value,
        is_quality(value) ==> code_of_quality(quality_of_code(Some(value))) == value,
{
    reveal_strlit("one-sided");
    reveal_strlit("two-sided-long-edge");
    reveal_strlit("two-sided-short-edge");
    assert("one-sided"@.len() == 9 && "two-sided-long-edge"@.len() == 19);
    assert("two-sided-short-edge"@.len() == 20);
    reveal_strlit("horizontal");
    reveal_strlit("vertical");
    reveal_strlit("simplex");
    assert("horizontal"@.len() == 10 && "vertical"@.len() == 8 && "simplex"@.len() == 7);
    reveal_strlit("3");
    reveal_strlit("4");
    reveal_strlit("5");
    assert("3"@[0] == '3' && "4"@[0] == '4' && "5"@[0] == '5');
    reveal_strlit("high");
    reveal_strlit("draft");
    reveal_strlit("low");
    reveal_strlit("normal");
    assert("high"@.len() == 4 && "draft"@.len() == 5 && "low"@.len() == 3);
    assert("normal"@.len() == 6);
}

/// The size of paper that is selected is found again by its name.
proof fn lemma_size_restored(d: DialogView)
    requires
        selected_size(d) is Some,
    ensures
        ({
            let names = media_names(d.printer_media->0);
            let name = selected_size(d)->0.name;
            &&& at(d.printer_media->0, position(names, name)) matches Some(size)
            &&& size.name == name
        }),
{
    let media = d.printer_media->0;
    let names = media_names(media);
    assert(names[d.selected_paper_size_index->0 as int] == selected_size(d)->0.name);
    assert(at(names, d.selected_paper_size_index) == Some(selected_size(d)->0.name));
    lemma_value_restored(names, d.selected_paper_size_index);
}

/// The margins that hints made from an answer ask for are the same at top and left.
proof fn lemma_margins_restored(d: DialogView, base: DialogView)
    requires
        base.margin_options == d.margin_options,
        d.margin_options.top.len() <= usize::MAX,
        d.margin_options.left.len() <= usize::MAX,
    ensures
        ({
            let (margins, vertical, horizontal) = hinted_margins(
                xdg_page_setup(d),
                d.margin_options,
                (
                    base.margins,
                    base.custom_margins_vertical_index,
                    base.custom_margins_horizontal_index,
                ),
            );
            let restored = DialogView {
                margins,
                custom_margins_vertical_index: vertical,
                custom_margins_horizontal_index: horizontal,
                ..base
            };
            &&& margins_of(restored).0 == margins_of(d).0
            &&& margins_of(restored).2 == margins_of(d).2
        }),
{
    lemma_page_setup_holds(d);
    let (top, bottom, left, right) = margins_of(d);
    let offered = d.margin_options;
    lemma_first_position_of(offered.top, top);
    lemma_first_position_of(offered.left, left);
    if top != 0 {
        assert(offered.top.contains(top)) by {
            if d.margins == Margins::Minimum {
                assert(offered.top[0] == top);
            } else {
                assert(offered.top[d.custom_margins_vertical_index->0 as int] == top);
            }
        }
    }
    if left != 0 {
        assert(offered.left.contains(left)) by {
            if d.margins == Margins::Minimum {
                assert(offered.left[0] == left);
            } else {
                assert(offered.left[d.custom_margins_horizontal_index->0 as int] == left);
            }
        }
    }
}

/// Whether print backends have this name for the sides of a sheet.
pub open spec fn is_side(value: Seq<char>) -> bool {
    value == "one-sided"@ || value == "two-sided-long-edge"@ || value == "two-sided-short-edge"@
}

/// Whether print backends have this name for a quality.
pub open spec fn is_quality(value: Seq<char>) -> bool {
    value == "3"@ || value == "4"@ || value == "5"@
}

/// An answer that comes back as hints opens the dialog as it was: copies, colours, collating, order,
/// orientation, layout, the number of pages on a sheet, scaling and pages. A scaling that is not a
/// custom percentage comes back as automatic, a valid range in canonical form; that all pages are
/// printed leaves the pages as they are. For a printer that offers the same, what is selected of the
/// sides, the quality, the tray, the type and the size of paper comes back too, and so do the
/// margins at top and left. Sides and qualities come back where print backends know their names.
pub proof fn law_answer_reopens_dialog(d: DialogView, base: DialogView, label: Option<Seq<char>>)
    ensures
        ({
            let reopened = base.with_hints(xdg_settings(d), xdg_page_setup(d), label);
            &&& reopened.copies == d.copies
            &&& reopened.color_mode == d.color_mode
            &&& reopened.collate == d.collate
            &&& reopened.reverse_order == d.reverse_order
            &&& reopened.orientation == d.orientation
            &&& reopened.layout_direction == d.layout_direction
            &&& reopened.pages_per_sheet_index == match d.pages_per_sheet_index {
                Some(i) if i < pages_per_sheet().len() => Some(i),
                _ => Some(0usize),
            }
            &&& reopened.page_selection == match d.page_selection {
                PageSetView::Custom(range) => PageSetView::Custom(
                    if valid_range(range) {
                        canonical_range(range)
                    } else {
                        shown_range(range)
                    },
                ),
                PageSetView::All => base.page_selection,
                other => other,
            }
            &&& d.scaling == ScalingMode::Custom && d.custom_scaling_input != 100 ==> {
                &&& reopened.scaling == ScalingMode::Custom
                &&& reopened.custom_scaling_input == d.custom_scaling_input
            }
            &&& !(d.scaling == ScalingMode::Custom && d.custom_scaling_input != 100)
                ==> reopened.scaling == ScalingMode::Auto
            &&& base.duplex_values == d.duplex_values ==> {
                at(d.duplex_values, d.duplex_index) matches Some(side) ==> (is_side(side) ==> at(
                    reopened.duplex_values,
                    reopened.duplex_index,
                ) == Some(side))
            }
            &&& base.print_quality_values == d.print_quality_values ==> {
                at(d.print_quality_values, d.print_quality_index) matches Some(quality) ==> (
                is_quality(quality) ==> at(
                    reopened.print_quality_values,
                    reopened.print_quality_index,
                ) == Some(quality))
            }
            &&& base.media_source_values == d.media_source_values ==> {
                at(d.media_source_values, d.paper_tray_index) matches Some(tray) ==> at(
                    reopened.media_source_values,
                    reopened.paper_tray_index,
                ) == Some(tray)
            }
            &&& base.media_type_values == d.media_type_values ==> {
                at(d.media_type_values, d.paper_type_index) matches Some(kind) ==> at(
                    reopened.media_type_values,
                    reopened.paper_type_index,
                ) == Some(kind)
            }
            &&& base.printer_media == d.printer_media ==> {
                selected_size(d) matches Some(size) ==> selected_size(reopened) matches Some(same)
                    && same.name == size.name
            }
            &&& base.margin_options == d.margin_options && d.margin_options.top.len() <= usize::MAX
                && d.margin_options.left.len() <= usize::MAX ==> {
                &&& margins_of(reopened).0 == margins_of(d).0
                &&& margins_of(reopened).2 == margins_of(d).2
            }
            &&& d.show_print_background_toggle ==> reopened.show_print_background_toggle
                && reopened.print_background == d.print_background
            &&& d.show_print_header_footer_toggle ==> reopened.show_print_header_footer_toggle
                && reopened.print_header_footer == d.print_header_footer
        }),
{
    let settings = xdg_settings(d);
    let setup = xdg_page_setup(d);
    lemma_settings_hold(d);
    lemma_page_setup_holds(d);
    lemma_flag_words(d.color_mode == ColorMode::Color);
    lemma_flag_words(d.collate);
    lemma_flag_words(d.reverse_order);
    lemma_choice_words(d.orientation, d.layout_direction);
    law_decimal_reads_back(d.copies);
    law_decimal_reads_back(d.custom_scaling_input);
    law_decimal_reads_back(number_up(d.pages_per_sheet_index));
    match d.pages_per_sheet_index {
        Some(i) if i < pages_per_sheet().len() => {
            lemma_pages_per_sheet_position(i);
        },
        _ => {
            lemma_pages_per_sheet_position(0);
        },
    }
    lemma_pages_restored(d, base.page_selection);
    if base.margin_options == d.margin_options && d.margin_options.top.len() <= usize::MAX
        && d.margin_options.left.len() <= usize::MAX {
        lemma_margins_restored(d, base);
    }
    if let Some(side) = at(d.duplex_values, d.duplex_index) {
        lemma_backend_words(side);
        lemma_value_restored(d.duplex_values, d.duplex_index);
    }
    if let Some(quality) = at(d.print_quality_values, d.print_quality_index) {
        lemma_backend_words(quality);
        lemma_value_restored(d.print_quality_values, d.print_quality_index);
    }
    if at(d.media_source_values, d.paper_tray_index) is Some {
        lemma_value_restored(d.media_source_values, d.paper_tray_index);
    }
    if at(d.media_type_values, d.paper_type_index) is Some {
        lemma_value_restored(d.media_type_values, d.paper_type_index);
    }
    if selected_size(d) is Some {
        lemma_size_restored(d);
    }
    law_decimal_reads_back(100);
    assert("100"@ == decimal(100)) by {
        reveal_strlit("100");
        reveal_with_fuel(decimal, 4);
        assert("100"@ =~= decimal(100));
    }
    let basic = base.with_basic_hints(settings, setup);
    assert(basic.copies == d.copies && basic.color_mode == d.color_mode && basic.collate == d.collate
        && basic.reverse_order == d.reverse_order && basic.orientation == d.orientation) by {
        reveal(DialogView::with_basic_hints);
    }
    assert(basic == DialogView {
        copies: basic.copies,
        color_mode: basic.color_mode,
        collate: basic.collate,
        reverse_order: basic.reverse_order,
        orientation: basic.orientation,
        ..base
    }) by {
        reveal(DialogView::with_basic_hints);
    }
    let layout = basic.with_layout_hints(settings);
    reveal(DialogView::with_layout_hints);
    reveal(DialogView::with_paper_hints);
    reveal(DialogView::with_margin_hints);
    reveal(DialogView::with_app_hints);
}

} // verus!
