//! What the print backend and the application are told is what the dialog shows, and they are told
//! the same.

use crate::print_dialog::choices::{Margins, Orientation, PageSetView};
use crate::print_dialog::hints::pages_per_sheet;
use crate::print_dialog::page_range::{
    canonical_range, law_page_range_round_trip, one_based, valid_range,
};
use crate::print_dialog::response::{
    cpdb_margins, cpdb_settings, hundredths_text, optional_decimal, optional_pair, selected_size,
    smallest_text, xdg_page_setup, xdg_settings,
};
use crate::print_dialog::round_trip::{lemma_page_setup_holds, lemma_settings_hold};
use crate::print_dialog::state::DialogView;
use crate::seqs::at;
use crate::text::{decimal, law_decimal_reads_back};
use crate::value::{flag_of, length_of, text_of, ValueView};
use vstd::prelude::*;

verus! {

/// Whether an entry of a list is chosen.
pub open spec fn is_chosen_of(values: Seq<Seq<char>>, index: Option<usize>, value: Seq<char>) -> bool {
    index matches Some(i) && i < values.len() && values[i as int] == value
}

/// Something is in two lists together where it is in one of them.
proof fn lemma_in_sum<T>(a: Seq<T>, b: Seq<T>, x: T)
    ensures
        (a + b).contains(x) == (a.contains(x) || b.contains(x)),
{
    let s = a + b;
    if a.contains(x) {
        let i = choose|i: int| 0 <= i < a.len() && a[i] == x;
        assert(s[i] == x);
    }
    if b.contains(x) {
        let i = choose|i: int| 0 <= i < b.len() && b[i] == x;
        assert(s[a.len() + i] == x);
    }
    if s.contains(x) {
        let i = choose|i: int| 0 <= i < s.len() && s[i] == x;
        if i < a.len() {
            assert(a[i] == x);
        } else {
            assert(b[i - a.len()] == x);
        }
    }
}

/// A list of one holds that one.
proof fn lemma_in_one<T>(y: T, x: T)
    ensures
        seq![y].contains(x) == (x == y),
{
    assert(seq![y][0] == y);
}

/// A pair that there may be.
proof fn lemma_in_optional(key: Seq<char>, value: Option<Seq<char>>, x: (Seq<char>, Seq<char>))
    ensures
        optional_pair(key, value).contains(x) == (x.0 == key && value == Some(x.1)),
{
    if let Some(v) = value {
        lemma_in_one((key, v), x);
    }
}

/// The names of what a print backend is told are different from each other.
proof fn lemma_backend_names()
    ensures
        "print-color-mode"@.len() == 16 && "print-color-mode"@[0] == 'p',
        "sides"@.len() == 5 && "sides"@[0] == 's',
        "copies"@.len() == 6,
        "multiple-document-handling"@.len() == 26,
        "page-delivery"@.len() == 13 && "page-delivery"@[1] == 'a',
        "print-quality"@.len() == 13 && "print-quality"@[1] == 'r' && "print-quality"@[6] == 'q',
        "print-scaling"@.len() == 13 && "print-scaling"@[1] == 'r' && "print-scaling"@[6] == 's',
        "number-up"@.len() == 9,
        "number-up-layout"@.len() == 16 && "number-up-layout"@[0] == 'n',
        "page-border"@.len() == 11,
        "media"@.len() == 5 && "media"@[0] == 'm',
        "media-source"@.len() == 12,
        "media-type"@.len() == 10,
        "media-top-margin"@.len() == 16 && "media-top-margin"@[0] == 'm',
        "media-bottom-margin"@.len() == 19,
        "media-left-margin"@.len() == 17,
        "media-right-margin"@.len() == 18,
{
    reveal_strlit("print-color-mode");
    reveal_strlit("sides");
    reveal_strlit("copies");
    reveal_strlit("multiple-document-handling");
    reveal_strlit("page-delivery");
    reveal_strlit("print-quality");
    reveal_strlit("print-scaling");
    reveal_strlit("number-up");
    reveal_strlit("number-up-layout");
    reveal_strlit("page-border");
    reveal_strlit("media");
    reveal_strlit("media-source");
    reveal_strlit("media-type");
    reveal_strlit("media-top-margin");
    reveal_strlit("media-bottom-margin");
    reveal_strlit("media-left-margin");
    reveal_strlit("media-right-margin");
}

/// Whether a name is that of a margin.
spec fn names_margin(key: Seq<char>) -> bool {
    ||| key == "media-top-margin"@
    ||| key == "media-bottom-margin"@
    ||| key == "media-left-margin"@
    ||| key == "media-right-margin"@
}

/// What is told of one side of the page.
spec fn margin_told(d: DialogView, offered: Seq<u32>, index: Option<usize>, value: Seq<char>) -> bool {
    match d.margins {
        Margins::Default => false,
        Margins::NoMargins => d.margin_options.supports_borderless && value == "0"@,
        Margins::Minimum => offered.len() > 0 && value == decimal(offered[0] as nat),
        Margins::Custom => index matches Some(i) && i < offered.len() && value == decimal(
            offered[i as int] as nat,
        ),
    }
}

/// The side of the page whose margins are offered where custom ones are chosen: the bottom has those
/// of the top, the right those of the left.
spec fn offered_for(d: DialogView, own: Seq<u32>, custom: Seq<u32>) -> Seq<u32> {
    if d.margins == Margins::Custom {
        custom
    } else {
        own
    }
}

/// The margins that a print backend is told.
proof fn lemma_margins_told(d: DialogView, x: (Seq<char>, Seq<char>))
    ensures
        cpdb_margins(d).contains(x) ==> names_margin(x.0),
        cpdb_margins(d).contains(("media-top-margin"@, x.1)) == margin_told(
            d,
            d.margin_options.top,
            d.custom_margins_vertical_index,
            x.1,
        ),
        cpdb_margins(d).contains(("media-bottom-margin"@, x.1)) == margin_told(
            d,
            offered_for(d, d.margin_options.bottom, d.margin_options.top),
            d.custom_margins_vertical_index,
            x.1,
        ),
        cpdb_margins(d).contains(("media-left-margin"@, x.1)) == margin_told(
            d,
            d.margin_options.left,
            d.custom_margins_horizontal_index,
            x.1,
        ),
        cpdb_margins(d).contains(("media-right-margin"@, x.1)) == margin_told(
            d,
            offered_for(d, d.margin_options.right, d.margin_options.left),
            d.custom_margins_horizontal_index,
            x.1,
        ),
{
    lemma_backend_names();
    lemma_margin_pairs(d, x);
    lemma_margin_pairs(d, ("media-top-margin"@, x.1));
    lemma_margin_pairs(d, ("media-bottom-margin"@, x.1));
    lemma_margin_pairs(d, ("media-left-margin"@, x.1));
    lemma_margin_pairs(d, ("media-right-margin"@, x.1));
}

/// The margins that a print backend is told, one by one.
proof fn lemma_margin_pairs(d: DialogView, x: (Seq<char>, Seq<char>))
    ensures
        cpdb_margins(d).contains(x) == {
            ||| x.0 == "media-top-margin"@ && margin_told(
                d,
                d.margin_options.top,
                d.custom_margins_vertical_index,
                x.1,
            )
            ||| x.0 == "media-bottom-margin"@ && margin_told(
                d,
                offered_for(d, d.margin_options.bottom, d.margin_options.top),
                d.custom_margins_vertical_index,
                x.1,
            )
            ||| x.0 == "media-left-margin"@ && margin_told(
                d,
                d.margin_options.left,
                d.custom_margins_horizontal_index,
                x.1,
            )
            ||| x.0 == "media-right-margin"@ && margin_told(
                d,
                offered_for(d, d.margin_options.right, d.margin_options.left),
                d.custom_margins_horizontal_index,
                x.1,
            )
        },
{
    let offered = d.margin_options;
    let (t, b, l, r) = (
        "media-top-margin"@,
        "media-bottom-margin"@,
        "media-left-margin"@,
        "media-right-margin"@,
    );
    match d.margins {
        Margins::Default => {},
        Margins::NoMargins => {
            if offered.supports_borderless {
                let s = seq![(t, "0"@), (b, "0"@), (l, "0"@), (r, "0"@)];
                assert(s[0] == (t, "0"@) && s[1] == (b, "0"@) && s[2] == (l, "0"@) && s[3] == (
                    r,
                    "0"@,
                ));
            }
        },
        Margins::Minimum => {
            let (vt, vb, vl, vr) = (
                smallest_text(offered.top),
                smallest_text(offered.bottom),
                smallest_text(offered.left),
                smallest_text(offered.right),
            );
            lemma_four(t, vt, b, vb, l, vl, r, vr, x);
        },
        Margins::Custom => {
            let v = optional_decimal(
                at(offered.top, d.custom_margins_vertical_index),
            );
            let h = optional_decimal(
                at(offered.left, d.custom_margins_horizontal_index),
            );
            lemma_four(t, v, b, v, l, h, r, h, x);
        },
    }
}

/// Four pairs that there may be.
proof fn lemma_four(
    t: Seq<char>,
    vt: Option<Seq<char>>,
    b: Seq<char>,
    vb: Option<Seq<char>>,
    l: Seq<char>,
    vl: Option<Seq<char>>,
    r: Seq<char>,
    vr: Option<Seq<char>>,
    x: (Seq<char>, Seq<char>),
)
    ensures
        (optional_pair(t, vt) + optional_pair(b, vb) + optional_pair(l, vl) + optional_pair(
            r,
            vr,
        )).contains(x) == {
            ||| x.0 == t && vt == Some(x.1)
            ||| x.0 == b && vb == Some(x.1)
            ||| x.0 == l && vl == Some(x.1)
            ||| x.0 == r && vr == Some(x.1)
        },
{
    lemma_in_optional(t, vt, x);
    lemma_in_optional(b, vb, x);
    lemma_in_optional(l, vl, x);
    lemma_in_optional(r, vr, x);
    let one = optional_pair(t, vt);
    let two = one + optional_pair(b, vb);
    let three = two + optional_pair(l, vl);
    lemma_in_sum(one, optional_pair(b, vb), x);
    lemma_in_sum(two, optional_pair(l, vl), x);
    lemma_in_sum(three, optional_pair(r, vr), x);
}

/// What a print backend is told, one by one.
#[verifier::rlimit(40)]
proof fn lemma_backend_pairs(d: DialogView, x: (Seq<char>, Seq<char>))
    ensures
        cpdb_settings(d).contains(x) == {
            ||| x == ("print-color-mode"@, d.color_mode.spec_id())
            ||| x.0 == "sides"@ && at(d.duplex_values, d.duplex_index) == Some(x.1)
            ||| x == ("copies"@, decimal(d.copies as nat))
            ||| x == (
                "multiple-document-handling"@,
                if d.collate {
                    "separate-documents-collated-copies"@
                } else {
                    "separate-documents-uncollated-copies"@
                },
            )
            ||| x == (
                "page-delivery"@,
                if d.reverse_order {
                    "reverse-order"@
                } else {
                    "same-order"@
                },
            )
            ||| x.0 == "print-quality"@ && at(
                d.print_quality_values,
                d.print_quality_index,
            ) == Some(x.1)
            ||| x == ("print-scaling"@, d.scaling.spec_cpdb())
            ||| x.0 == "number-up"@ && optional_decimal(
                at(
                    pages_per_sheet(),
                    d.pages_per_sheet_index,
                ),
            ) == Some(x.1)
            ||| x == ("number-up-layout"@, d.layout_direction.spec_id())
            ||| x == ("page-border"@, d.border.spec_id())
            ||| x.0 == "media"@ && (selected_size(d) matches Some(m)
                && m.name == x.1)
            ||| x.0 == "media-source"@ && at(
                d.media_source_values,
                d.paper_tray_index,
            ) == Some(x.1)
            ||| x.0 == "media-type"@ && at(d.media_type_values, d.paper_type_index)
                == Some(x.1)
            ||| cpdb_margins(d).contains(x)
        },
{
    let a1 = seq![("print-color-mode"@, d.color_mode.spec_id())];
    let a2 = optional_pair("sides"@, at(d.duplex_values, d.duplex_index));
    let a3 = seq![("copies"@, decimal(d.copies as nat))];
    let a4 = seq![
        (
            "multiple-document-handling"@,
            if d.collate {
                "separate-documents-collated-copies"@
            } else {
                "separate-documents-uncollated-copies"@
            },
        ),
    ];
    let a5 = seq![
        (
            "page-delivery"@,
            if d.reverse_order {
                "reverse-order"@
            } else {
                "same-order"@
            },
        ),
    ];
    let a6 = optional_pair(
        "print-quality"@,
        at(d.print_quality_values, d.print_quality_index),
    );
    let a7 = seq![("print-scaling"@, d.scaling.spec_cpdb())];
    let up = optional_decimal(
        at(pages_per_sheet(), d.pages_per_sheet_index),
    );
    let a8 = optional_pair("number-up"@, up);
    let a9 = seq![("number-up-layout"@, d.layout_direction.spec_id())];
    let a10 = seq![("page-border"@, d.border.spec_id())];
    let size = match selected_size(d) {
        Some(m) => Some(m.name),
        None => None,
    };
    let a11 = optional_pair("media"@, size);
    let a12 = optional_pair(
        "media-source"@,
        at(d.media_source_values, d.paper_tray_index),
    );
    let a13 = optional_pair(
        "media-type"@,
        at(d.media_type_values, d.paper_type_index),
    );
    let a14 = cpdb_margins(d);
    assert(cpdb_settings(d) == a1 + a2 + a3 + a4 + a5 + a6 + a7 + a8 + a9 + a10 + a11 + a12 + a13
        + a14);
    lemma_in_one(a1[0], x);
    lemma_in_optional("sides"@, at(d.duplex_values, d.duplex_index), x);
    lemma_in_one(a3[0], x);
    lemma_in_one(a4[0], x);
    lemma_in_one(a5[0], x);
    lemma_in_optional(
        "print-quality"@,
        at(d.print_quality_values, d.print_quality_index),
        x,
    );
    lemma_in_one(a7[0], x);
    lemma_in_optional("number-up"@, up, x);
    lemma_in_one(a9[0], x);
    lemma_in_one(a10[0], x);
    lemma_in_optional("media"@, size, x);
    lemma_in_optional(
        "media-source"@,
        at(d.media_source_values, d.paper_tray_index),
        x,
    );
    lemma_in_optional(
        "media-type"@,
        at(d.media_type_values, d.paper_type_index),
        x,
    );
    lemma_in_sum(a1, a2, x);
    lemma_in_sum(a1 + a2, a3, x);
    lemma_in_sum(a1 + a2 + a3, a4, x);
    lemma_in_sum(a1 + a2 + a3 + a4, a5, x);
    lemma_in_sum(a1 + a2 + a3 + a4 + a5, a6, x);
    lemma_in_sum(a1 + a2 + a3 + a4 + a5 + a6, a7, x);
    lemma_in_sum(a1 + a2 + a3 + a4 + a5 + a6 + a7, a8, x);
    lemma_in_sum(a1 + a2 + a3 + a4 + a5 + a6 + a7 + a8, a9, x);
    lemma_in_sum(a1 + a2 + a3 + a4 + a5 + a6 + a7 + a8 + a9, a10, x);
    lemma_in_sum(a1 + a2 + a3 + a4 + a5 + a6 + a7 + a8 + a9 + a10, a11, x);
    lemma_in_sum(a1 + a2 + a3 + a4 + a5 + a6 + a7 + a8 + a9 + a10 + a11, a12, x);
    lemma_in_sum(a1 + a2 + a3 + a4 + a5 + a6 + a7 + a8 + a9 + a10 + a11 + a12, a13, x);
    lemma_in_sum(a1 + a2 + a3 + a4 + a5 + a6 + a7 + a8 + a9 + a10 + a11 + a12 + a13, a14, x);
}

/// The words for what is switched on and off are different.
proof fn lemma_switch_words()
    ensures
        "separate-documents-collated-copies"@ != "separate-documents-uncollated-copies"@,
        "reverse-order"@ != "same-order"@,
        "color"@ != "monochrome"@,
        "true"@ != "false"@,
        "portrait"@ != "landscape"@,
{
    reveal_strlit("separate-documents-collated-copies");
    reveal_strlit("separate-documents-uncollated-copies");
    reveal_strlit("reverse-order");
    reveal_strlit("same-order");
    reveal_strlit("color");
    reveal_strlit("monochrome");
    reveal_strlit("true");
    reveal_strlit("false");
    reveal_strlit("portrait");
    reveal_strlit("landscape");
    assert("separate-documents-collated-copies"@.len() == 34);
    assert("separate-documents-uncollated-copies"@.len() == 36);
    assert("reverse-order"@.len() == 13 && "same-order"@.len() == 10);
    assert("color"@.len() == 5 && "monochrome"@.len() == 10);
    assert("true"@.len() == 4 && "false"@.len() == 5);
    assert("portrait"@.len() == 8 && "landscape"@.len() == 9);
}

/// A number is told from others by its decimal form.
proof fn lemma_decimal_differs(m: u32, n: u32)
    ensures
        decimal(m as nat) == decimal(n as nat) <==> m == n,
{
    law_decimal_reads_back(m);
    law_decimal_reads_back(n);
}

/// The print backend is told to collate the copies where the switch for it is on, and not to where
/// it is off.
pub proof fn law_backend_collates_as_switched(d: DialogView)
    ensures
        cpdb_settings(d).contains(
            ("multiple-document-handling"@, "separate-documents-collated-copies"@),
        ) <==> d.collate,
        cpdb_settings(d).contains(
            ("multiple-document-handling"@, "separate-documents-uncollated-copies"@),
        ) <==> !d.collate,
{
    lemma_backend_names();
    lemma_switch_words();
    let on = ("multiple-document-handling"@, "separate-documents-collated-copies"@);
    let off = ("multiple-document-handling"@, "separate-documents-uncollated-copies"@);
    lemma_backend_pairs(d, on);
    lemma_margins_told(d, on);
    lemma_backend_pairs(d, off);
    lemma_margins_told(d, off);
}

/// The print backend is told to print the last page first where the switch for it is on, and in
/// colour where colour is chosen.
pub proof fn law_backend_orders_and_colours_as_switched(d: DialogView)
    ensures
        cpdb_settings(d).contains(("page-delivery"@, "reverse-order"@)) <==> d.reverse_order,
        cpdb_settings(d).contains(("page-delivery"@, "same-order"@)) <==> !d.reverse_order,
        cpdb_settings(d).contains(("print-color-mode"@, "color"@)) <==> d.color_mode is Color,
        cpdb_settings(d).contains(("print-color-mode"@, "monochrome"@))
            <==> d.color_mode is Monochrome,
{
    lemma_backend_names();
    lemma_switch_words();
    let (a, b) = (("page-delivery"@, "reverse-order"@), ("page-delivery"@, "same-order"@));
    lemma_backend_pairs(d, a);
    lemma_margins_told(d, a);
    lemma_backend_pairs(d, b);
    lemma_margins_told(d, b);
    let (a, b) = (("print-color-mode"@, "color"@), ("print-color-mode"@, "monochrome"@));
    lemma_backend_pairs(d, a);
    lemma_margins_told(d, a);
    lemma_backend_pairs(d, b);
    lemma_margins_told(d, b);
}

/// The print backend is told the number of copies that the dialog shows, and how many pages go on a
/// sheet: the number that is selected of one, two, four, six, nine and sixteen.
pub proof fn law_backend_counts_as_shown(d: DialogView, n: u32)
    ensures
        cpdb_settings(d).contains(("copies"@, decimal(n as nat))) <==> d.copies == n,
        cpdb_settings(d).contains(("number-up"@, decimal(n as nat))) <==> {
            ||| d.pages_per_sheet_index == Some(0usize) && n == 1
            ||| d.pages_per_sheet_index == Some(1usize) && n == 2
            ||| d.pages_per_sheet_index == Some(2usize) && n == 4
            ||| d.pages_per_sheet_index == Some(3usize) && n == 6
            ||| d.pages_per_sheet_index == Some(4usize) && n == 9
            ||| d.pages_per_sheet_index == Some(5usize) && n == 16
        },
{
    lemma_backend_names();
    lemma_decimal_differs(d.copies, n);
    let x = ("copies"@, decimal(n as nat));
    lemma_backend_pairs(d, x);
    lemma_margins_told(d, x);
    let y = ("number-up"@, decimal(n as nat));
    lemma_backend_pairs(d, y);
    lemma_margins_told(d, y);
    lemma_decimal_differs(1, n);
    lemma_decimal_differs(2, n);
    lemma_decimal_differs(4, n);
    lemma_decimal_differs(6, n);
    lemma_decimal_differs(9, n);
    lemma_decimal_differs(16, n);
}

/// Of what a printer offers, the print backend is told what is selected: the sides, the quality, the
/// tray, the type and the size of the paper. It is told nothing where nothing is selected.
pub proof fn law_backend_is_told_what_is_selected(d: DialogView, value: Seq<char>)
    ensures
        cpdb_settings(d).contains(("sides"@, value)) <==> is_chosen_of(
            d.duplex_values,
            d.duplex_index,
            value,
        ),
        cpdb_settings(d).contains(("print-quality"@, value)) <==> is_chosen_of(
            d.print_quality_values,
            d.print_quality_index,
            value,
        ),
        cpdb_settings(d).contains(("media-source"@, value)) <==> is_chosen_of(
            d.media_source_values,
            d.paper_tray_index,
            value,
        ),
        cpdb_settings(d).contains(("media-type"@, value)) <==> is_chosen_of(
            d.media_type_values,
            d.paper_type_index,
            value,
        ),
        cpdb_settings(d).contains(("media"@, value)) <==> (d.printer_media matches Some(media)
            && d.selected_paper_size_index matches Some(i) && i < media.len() && media[i as int].name
            == value),
{
    lemma_backend_names();
    let x = ("sides"@, value);
    lemma_backend_pairs(d, x);
    lemma_margins_told(d, x);
    let x = ("print-quality"@, value);
    lemma_backend_pairs(d, x);
    lemma_margins_told(d, x);
    let x = ("media-source"@, value);
    lemma_backend_pairs(d, x);
    lemma_margins_told(d, x);
    let x = ("media-type"@, value);
    lemma_backend_pairs(d, x);
    lemma_margins_told(d, x);
    let x = ("media"@, value);
    lemma_backend_pairs(d, x);
    lemma_margins_told(d, x);
}

/// The words for scalings, directions and borders that print backends have are different.
proof fn lemma_layout_words()
    ensures
        "auto"@.len() == 4 && "auto"@[0] == 'a',
        "auto-fit"@.len() == 8,
        "fit"@.len() == 3,
        "fill"@.len() == 4 && "fill"@[0] == 'f',
        "none"@.len() == 4 && "none"@[0] == 'n',
        "lrtb"@[0] == 'l',
        "rltb"@[0] == 'r',
        "tblr"@[0] == 't' && "tblr"@[2] == 'l',
        "tbrl"@[0] == 't' && "tbrl"@[2] == 'r',
        "single"@.len() == 6 && "single"@[0] == 's',
        "double"@.len() == 6 && "double"@[0] == 'd',
{
    reveal_strlit("auto");
    reveal_strlit("auto-fit");
    reveal_strlit("fit");
    reveal_strlit("fill");
    reveal_strlit("none");
    reveal_strlit("lrtb");
    reveal_strlit("rltb");
    reveal_strlit("tblr");
    reveal_strlit("tbrl");
    reveal_strlit("single");
    reveal_strlit("double");
}

/// The print backend is told how the document is scaled to the page.
pub proof fn law_backend_scales_as_chosen(d: DialogView)
    ensures
        cpdb_settings(d).contains(("print-scaling"@, "auto"@)) <==> d.scaling is Auto,
        cpdb_settings(d).contains(("print-scaling"@, "auto-fit"@)) <==> d.scaling is AutoFit,
        cpdb_settings(d).contains(("print-scaling"@, "fit"@)) <==> d.scaling is Fit,
        cpdb_settings(d).contains(("print-scaling"@, "fill"@)) <==> d.scaling is Fill,
        cpdb_settings(d).contains(("print-scaling"@, "none"@)) <==> d.scaling is Custom,
{
    lemma_backend_names();
    lemma_layout_words();
    let key = "print-scaling"@;
    lemma_backend_pairs(d, (key, "auto"@));
    lemma_margins_told(d, (key, "auto"@));
    lemma_backend_pairs(d, (key, "auto-fit"@));
    lemma_margins_told(d, (key, "auto-fit"@));
    lemma_backend_pairs(d, (key, "fit"@));
    lemma_margins_told(d, (key, "fit"@));
    lemma_backend_pairs(d, (key, "fill"@));
    lemma_margins_told(d, (key, "fill"@));
    lemma_backend_pairs(d, (key, "none"@));
    lemma_margins_told(d, (key, "none"@));
}

/// The print backend is told in which order pages are laid on a sheet and what is drawn around them.
pub proof fn law_backend_lays_out_as_chosen(d: DialogView)
    ensures
        cpdb_settings(d).contains(("number-up-layout"@, "lrtb"@))
            <==> d.layout_direction is LeftToRightTopToBottom,
        cpdb_settings(d).contains(("number-up-layout"@, "rltb"@))
            <==> d.layout_direction is RightToLeftTopToBottom,
        cpdb_settings(d).contains(("number-up-layout"@, "tblr"@))
            <==> d.layout_direction is TopToBottomLeftToRight,
        cpdb_settings(d).contains(("number-up-layout"@, "tbrl"@))
            <==> d.layout_direction is TopToBottomRightToLeft,
        cpdb_settings(d).contains(("page-border"@, "none"@)) <==> d.border is NoBorder,
        cpdb_settings(d).contains(("page-border"@, "single"@)) <==> d.border is Single,
        cpdb_settings(d).contains(("page-border"@, "double"@)) <==> d.border is Double,
{
    lemma_backend_names();
    lemma_layout_words();
    let key = "number-up-layout"@;
    lemma_backend_pairs(d, (key, "lrtb"@));
    lemma_margins_told(d, (key, "lrtb"@));
    lemma_backend_pairs(d, (key, "rltb"@));
    lemma_margins_told(d, (key, "rltb"@));
    lemma_backend_pairs(d, (key, "tblr"@));
    lemma_margins_told(d, (key, "tblr"@));
    lemma_backend_pairs(d, (key, "tbrl"@));
    lemma_margins_told(d, (key, "tbrl"@));
    let key = "page-border"@;
    lemma_backend_pairs(d, (key, "none"@));
    lemma_margins_told(d, (key, "none"@));
    lemma_backend_pairs(d, (key, "single"@));
    lemma_margins_told(d, (key, "single"@));
    lemma_backend_pairs(d, (key, "double"@));
    lemma_margins_told(d, (key, "double"@));
}

/// The print backend is told of the margins: nothing for the default and where a printer leaves some
/// anyway; zero on all sides for none; the first that is offered on each side for the smallest; and
/// for custom ones the same at top and bottom, and the same at left and right.
pub proof fn law_backend_is_told_the_margins(d: DialogView, n: u32)
    ensures
        ({
            let told = cpdb_settings(d);
            let word = decimal(n as nat);
            let top = told.contains(("media-top-margin"@, word));
            let bottom = told.contains(("media-bottom-margin"@, word));
            let left = told.contains(("media-left-margin"@, word));
            let right = told.contains(("media-right-margin"@, word));
            &&& d.margins is Default ==> !top && !bottom && !left && !right
            &&& d.margins is NoMargins && !d.margin_options.supports_borderless ==> !top && !bottom
                && !left && !right
            &&& d.margins is NoMargins && d.margin_options.supports_borderless ==> {
                &&& top <==> n == 0
                &&& bottom <==> n == 0
                &&& left <==> n == 0
                &&& right <==> n == 0
            }
            &&& d.margins is Minimum ==> {
                &&& top <==> d.margin_options.top.len() > 0 && d.margin_options.top[0] == n
                &&& bottom <==> d.margin_options.bottom.len() > 0 && d.margin_options.bottom[0] == n
                &&& left <==> d.margin_options.left.len() > 0 && d.margin_options.left[0] == n
                &&& right <==> d.margin_options.right.len() > 0 && d.margin_options.right[0] == n
            }
            &&& d.margins is Custom ==> {
                &&& top <==> (d.custom_margins_vertical_index matches Some(i) && i
                    < d.margin_options.top.len() && d.margin_options.top[i as int] == n)
                &&& left <==> (d.custom_margins_horizontal_index matches Some(i) && i
                    < d.margin_options.left.len() && d.margin_options.left[i as int] == n)
                &&& bottom == top
                &&& right == left
            }
        }),
{
    lemma_backend_names();
    let word = decimal(n as nat);
    lemma_backend_pairs(d, ("media-top-margin"@, word));
    lemma_backend_pairs(d, ("media-bottom-margin"@, word));
    lemma_backend_pairs(d, ("media-left-margin"@, word));
    lemma_backend_pairs(d, ("media-right-margin"@, word));
    lemma_margins_told(d, ("media-top-margin"@, word));
    lemma_decimal_differs(0, n);
    assert("0"@ == decimal(0)) by {
        reveal_strlit("0");
        assert("0"@ =~= decimal(0));
    }
    let offered = d.margin_options;
    if offered.top.len() > 0 {
        lemma_decimal_differs(offered.top[0], n);
    }
    if offered.bottom.len() > 0 {
        lemma_decimal_differs(offered.bottom[0], n);
    }
    if offered.left.len() > 0 {
        lemma_decimal_differs(offered.left[0], n);
    }
    if offered.right.len() > 0 {
        lemma_decimal_differs(offered.right[0], n);
    }
    if let Some(i) = d.custom_margins_vertical_index {
        if i < offered.top.len() {
            lemma_decimal_differs(offered.top[i as int], n);
        }
    }
    if let Some(i) = d.custom_margins_horizontal_index {
        if i < offered.left.len() {
            lemma_decimal_differs(offered.left[i as int], n);
        }
    }
}

/// The words that applications have are different.
proof fn lemma_application_words()
    ensures
        "horizontal"@.len() == 10,
        "vertical"@.len() == 8,
        "simplex"@.len() == 7,
        "two-sided-long-edge"@.len() == 19,
        "two-sided-short-edge"@.len() == 20,
        "high"@.len() == 4,
        "draft"@.len() == 5,
        "normal"@.len() == 6,
        "5"@[0] == '5',
        "3"@[0] == '3',
        "all"@.len() == 3 && "all"@[0] == 'a',
        "current"@.len() == 7,
        "ranges"@.len() == 6,
        "odd"@.len() == 3 && "odd"@[0] == 'o',
        "even"@.len() == 4,
{
    reveal_strlit("horizontal");
    reveal_strlit("vertical");
    reveal_strlit("simplex");
    reveal_strlit("two-sided-long-edge");
    reveal_strlit("two-sided-short-edge");
    reveal_strlit("high");
    reveal_strlit("draft");
    reveal_strlit("normal");
    reveal_strlit("5");
    reveal_strlit("3");
    reveal_strlit("all");
    reveal_strlit("current");
    reveal_strlit("ranges");
    reveal_strlit("odd");
    reveal_strlit("even");
}

/// The application is told of the switches and of the number of copies as the dialog shows them.
pub proof fn law_application_is_told_the_switches(d: DialogView, n: u32)
    ensures
        ({
            let told = xdg_settings(d);
            &&& text_of(told, "collate"@) == Some("true"@) <==> d.collate
            &&& text_of(told, "collate"@) == Some("false"@) <==> !d.collate
            &&& text_of(told, "reverse"@) == Some("true"@) <==> d.reverse_order
            &&& text_of(told, "reverse"@) == Some("false"@) <==> !d.reverse_order
            &&& text_of(told, "use-color"@) == Some("true"@) <==> d.color_mode is Color
            &&& text_of(told, "use-color"@) == Some("false"@) <==> d.color_mode is Monochrome
            &&& text_of(told, "orientation"@) == Some("portrait"@) <==> d.orientation is Portrait
            &&& text_of(told, "orientation"@) == Some("landscape"@) <==> d.orientation is Landscape
            &&& text_of(told, "n-copies"@) == Some(decimal(n as nat)) <==> d.copies == n
            &&& flag_of(told, "gtk-print-backgrounds"@) == Some(true) <==> (
            d.show_print_background_toggle && d.print_background)
            &&& flag_of(told, "gtk-print-backgrounds"@) == Some(false) <==> (
            d.show_print_background_toggle && !d.print_background)
            &&& flag_of(told, "gtk-print-header-footer"@) == Some(true) <==> (
            d.show_print_header_footer_toggle && d.print_header_footer)
            &&& flag_of(told, "gtk-print-header-footer"@) == Some(false) <==> (
            d.show_print_header_footer_toggle && !d.print_header_footer)
        }),
{
    lemma_settings_hold(d);
    lemma_switch_words();
    lemma_decimal_differs(d.copies, n);
}

/// The application is told of the sides, the quality and the scaling in its own words. What it has
/// no word for is one side, normal quality or a hundred percent.
pub proof fn law_application_is_told_in_its_words(d: DialogView, n: u32)
    ensures
        ({
            let told = xdg_settings(d);
            let long = is_chosen_of(d.duplex_values, d.duplex_index, "two-sided-long-edge"@);
            let short = is_chosen_of(d.duplex_values, d.duplex_index, "two-sided-short-edge"@);
            let high = is_chosen_of(d.print_quality_values, d.print_quality_index, "5"@);
            let low = is_chosen_of(d.print_quality_values, d.print_quality_index, "3"@);
            &&& text_of(told, "duplex"@) == Some("horizontal"@) <==> long
            &&& text_of(told, "duplex"@) == Some("vertical"@) <==> short
            &&& text_of(told, "duplex"@) == Some("simplex"@) <==> !long && !short
            &&& text_of(told, "quality"@) == Some("high"@) <==> high
            &&& text_of(told, "quality"@) == Some("draft"@) <==> low
            &&& text_of(told, "quality"@) == Some("normal"@) <==> !high && !low
            &&& text_of(told, "scale"@) == Some(decimal(n as nat)) <==> if d.scaling is Custom {
                d.custom_scaling_input == n
            } else {
                n == 100
            }
        }),
{
    lemma_settings_hold(d);
    lemma_application_words();
    lemma_decimal_differs(d.custom_scaling_input, n);
    lemma_decimal_differs(100, n);
    assert("100"@ == decimal(100)) by {
        reveal_strlit("100");
        reveal_with_fuel(decimal, 4);
        assert("100"@ =~= decimal(100));
    }
}

/// The application is told which pages are printed. A valid range counts from zero there, and counted
/// from one it is the range that was typed.
pub proof fn law_application_is_told_the_pages(d: DialogView)
    ensures
        ({
            let told = xdg_settings(d);
            &&& text_of(told, "print-pages"@) == Some("all"@) <==> d.page_selection is All
            &&& text_of(told, "print-pages"@) == Some("current"@) <==> d.page_selection is Current
            &&& text_of(told, "print-pages"@) == Some("ranges"@) <==> (d.page_selection is Odd
                || d.page_selection is Even || d.page_selection is Custom)
            &&& text_of(told, "page-set"@) == Some("odd"@) <==> d.page_selection is Odd
            &&& text_of(told, "page-set"@) == Some("even"@) <==> d.page_selection is Even
            &&& text_of(told, "page-ranges"@) is Some <==> d.page_selection is Custom
            &&& d.page_selection matches PageSetView::Custom(range) ==> (valid_range(range)
                ==> one_based(text_of(told, "page-ranges"@)->0) == canonical_range(range))
        }),
{
    lemma_settings_hold(d);
    lemma_application_words();
    if let PageSetView::Custom(range) = d.page_selection {
        law_page_range_round_trip(range);
    }
}

/// The application is told of the layout and of the paper.
pub proof fn law_application_is_told_the_layout(d: DialogView, n: u32)
    ensures
        ({
            let told = xdg_settings(d);
            &&& text_of(told, "number-up-layout"@) == Some("lrtb"@)
                <==> d.layout_direction is LeftToRightTopToBottom
            &&& text_of(told, "number-up-layout"@) == Some("rltb"@)
                <==> d.layout_direction is RightToLeftTopToBottom
            &&& text_of(told, "number-up-layout"@) == Some("tblr"@)
                <==> d.layout_direction is TopToBottomLeftToRight
            &&& text_of(told, "number-up-layout"@) == Some("tbrl"@)
                <==> d.layout_direction is TopToBottomRightToLeft
            &&& text_of(told, "number-up"@) == Some(decimal(n as nat)) <==> {
                ||| d.pages_per_sheet_index == Some(1usize) && n == 2
                ||| d.pages_per_sheet_index == Some(2usize) && n == 4
                ||| d.pages_per_sheet_index == Some(3usize) && n == 6
                ||| d.pages_per_sheet_index == Some(4usize) && n == 9
                ||| d.pages_per_sheet_index == Some(5usize) && n == 16
                ||| n == 1 && (match d.pages_per_sheet_index {
                    Some(i) => i == 0 || i > 5,
                    None => true,
                })
            }
        }),
{
    lemma_settings_hold(d);
    lemma_layout_words();
    lemma_decimal_differs(1, n);
    lemma_decimal_differs(2, n);
    lemma_decimal_differs(4, n);
    lemma_decimal_differs(6, n);
    lemma_decimal_differs(9, n);
    lemma_decimal_differs(16, n);
}

/// The application and the print backend are told the same: copies, collating, order, colours, sides,
/// layout, tray, type and size of the paper.
pub proof fn law_application_and_backend_agree(d: DialogView, n: u32, value: Seq<char>)
    ensures
        ({
            let application = xdg_settings(d);
            let backend = cpdb_settings(d);
            &&& text_of(application, "collate"@) == Some("true"@) <==> backend.contains(
                ("multiple-document-handling"@, "separate-documents-collated-copies"@),
            )
            &&& text_of(application, "reverse"@) == Some("true"@) <==> backend.contains(
                ("page-delivery"@, "reverse-order"@),
            )
            &&& text_of(application, "use-color"@) == Some("true"@) <==> backend.contains(
                ("print-color-mode"@, "color"@),
            )
            &&& text_of(application, "n-copies"@) == Some(decimal(n as nat)) <==> backend.contains(
                ("copies"@, decimal(n as nat)),
            )
            &&& text_of(application, "duplex"@) == Some("horizontal"@) <==> backend.contains(
                ("sides"@, "two-sided-long-edge"@),
            )
            &&& text_of(application, "duplex"@) == Some("vertical"@) <==> backend.contains(
                ("sides"@, "two-sided-short-edge"@),
            )
            &&& text_of(application, "quality"@) == Some("high"@) <==> backend.contains(
                ("print-quality"@, "5"@),
            )
            &&& text_of(application, "quality"@) == Some("draft"@) <==> backend.contains(
                ("print-quality"@, "3"@),
            )
            &&& text_of(application, "default-source"@) == Some(value) <==> backend.contains(
                ("media-source"@, value),
            )
            &&& text_of(application, "media-type"@) == Some(value) <==> backend.contains(
                ("media-type"@, value),
            )
            &&& text_of(application, "paper-format"@) == Some(value) <==> backend.contains(
                ("media"@, value),
            )
        }),
{
    lemma_settings_hold(d);
    law_application_is_told_the_switches(d, n);
    law_application_is_told_in_its_words(d, n);
    law_backend_collates_as_switched(d);
    law_backend_orders_and_colours_as_switched(d);
    law_backend_counts_as_shown(d, n);
    law_backend_is_told_what_is_selected(d, value);
    law_backend_is_told_what_is_selected(d, "two-sided-long-edge"@);
    law_backend_is_told_what_is_selected(d, "two-sided-short-edge"@);
    law_backend_is_told_what_is_selected(d, "5"@);
    law_backend_is_told_what_is_selected(d, "3"@);
}

/// Hundredths of a millimetre under a name.
pub open spec fn hundredths_of(setup: Map<Seq<char>, ValueView>, key: Seq<char>) -> Option<int> {
    match length_of(setup, key) {
        Some(length) => Some(length.hundredths as int),
        None => None,
    }
}

/// The application is told of the orientation and the margins of the page in its setup: none are
/// zero, the smallest are the first that are offered, custom ones the selected ones, the same at top
/// and bottom and the same at left and right.
pub proof fn law_application_is_told_the_page(d: DialogView)
    ensures
        ({
            let setup = xdg_page_setup(d);
            let offered = d.margin_options;
            &&& text_of(setup, "Orientation"@) == Some("portrait"@) <==> d.orientation is Portrait
            &&& text_of(setup, "Orientation"@) == Some("landscape"@) <==> d.orientation is Landscape
            &&& d.margins is NoMargins || d.margins is Default ==> {
                &&& hundredths_of(setup, "MarginTop"@) == Some(0int)
                &&& hundredths_of(setup, "MarginBottom"@) == Some(0int)
                &&& hundredths_of(setup, "MarginLeft"@) == Some(0int)
                &&& hundredths_of(setup, "MarginRight"@) == Some(0int)
            }
            &&& d.margins is Minimum && offered.top.len() > 0 ==> hundredths_of(setup, "MarginTop"@)
                == Some(offered.top[0] as int)
            &&& d.margins is Minimum && offered.bottom.len() > 0 ==> hundredths_of(
                setup,
                "MarginBottom"@,
            ) == Some(offered.bottom[0] as int)
            &&& d.margins is Minimum && offered.left.len() > 0 ==> hundredths_of(
                setup,
                "MarginLeft"@,
            ) == Some(offered.left[0] as int)
            &&& d.margins is Minimum && offered.right.len() > 0 ==> hundredths_of(
                setup,
                "MarginRight"@,
            ) == Some(offered.right[0] as int)
            &&& d.margins is Custom ==> {
                &&& hundredths_of(setup, "MarginTop"@) == hundredths_of(setup, "MarginBottom"@)
                &&& hundredths_of(setup, "MarginLeft"@) == hundredths_of(setup, "MarginRight"@)
                &&& d.custom_margins_vertical_index matches Some(i) ==> (i < offered.top.len()
                    ==> hundredths_of(setup, "MarginTop"@) == Some(offered.top[i as int] as int))
                &&& d.custom_margins_horizontal_index matches Some(i) ==> (i < offered.left.len()
                    ==> hundredths_of(setup, "MarginLeft"@) == Some(offered.left[i as int] as int))
            }
        }),
{
    lemma_page_setup_holds(d);
    lemma_switch_words();
}

/// The application is told the name and the size of the paper that is selected, in its settings and in
/// the setup of the page; and nothing of paper where none is.
pub proof fn law_application_is_told_the_paper(d: DialogView)
    ensures
        ({
            let setup = xdg_page_setup(d);
            let told = xdg_settings(d);
            match d.selected_paper_size_index {
                Some(i) if d.printer_media is Some && i < d.printer_media->0.len() => {
                    let size = d.printer_media->0[i as int];
                    &&& text_of(told, "paper-format"@) == Some(size.name)
                    &&& text_of(told, "paper-width"@) == Some(hundredths_text(size.width as int))
                    &&& text_of(told, "paper-height"@) == Some(hundredths_text(size.length as int))
                    &&& text_of(setup, "Name"@) == Some(size.name)
                    &&& text_of(setup, "PPDName"@) == Some(size.name)
                    &&& text_of(setup, "DisplayName"@) == Some(size.name)
                    &&& hundredths_of(setup, "Width"@) == Some(size.width as int)
                    &&& hundredths_of(setup, "Height"@) == Some(size.length as int)
                },
                _ => {
                    &&& text_of(told, "paper-format"@) is None
                    &&& text_of(setup, "Name"@) is None
                    &&& hundredths_of(setup, "Width"@) is None
                    &&& hundredths_of(setup, "Height"@) is None
                },
            }
        }),
{
    lemma_settings_hold(d);
    lemma_paper_names();
}

/// The names under which the paper is described are different.
proof fn lemma_paper_names()
    ensures
        "Name"@.len() == 4,
        "PPDName"@.len() == 7,
        "DisplayName"@.len() == 11 && "DisplayName"@[0] == 'D',
        "Width"@.len() == 5,
        "Height"@.len() == 6,
        "Orientation"@.len() == 11 && "Orientation"@[0] == 'O',
        "MarginTop"@.len() == 9,
        "MarginBottom"@.len() == 12,
        "MarginLeft"@.len() == 10,
        "MarginRight"@.len() == 11 && "MarginRight"@[0] == 'M',
        "paper-width"@.len() == 11,
        "paper-height"@.len() == 12 && "paper-height"@[6] == 'h',
        "paper-format"@.len() == 12 && "paper-format"@[6] == 'f',
        "gtk-print-backgrounds"@.len() == 21,
        "gtk-print-header-footer"@.len() == 23,
{
    reveal_strlit("Name");
    reveal_strlit("PPDName");
    reveal_strlit("DisplayName");
    reveal_strlit("Width");
    reveal_strlit("Height");
    reveal_strlit("Orientation");
    reveal_strlit("MarginTop");
    reveal_strlit("MarginBottom");
    reveal_strlit("MarginLeft");
    reveal_strlit("MarginRight");
    reveal_strlit("paper-width");
    reveal_strlit("paper-height");
    reveal_strlit("paper-format");
    reveal_strlit("gtk-print-backgrounds");
    reveal_strlit("gtk-print-header-footer");
}

/// Whole units are written as numbers, and what is left of the point is the whole part of all others;
/// what is less than nothing has a sign before it.
pub proof fn law_hundredths_are_written_in_units(n: int)
    ensures
        n >= 0 && n % 100 == 0 ==> hundredths_text(n) == decimal((n / 100) as nat),
        n >= 0 && n % 100 != 0 ==> {
            let whole = decimal((n / 100) as nat);
            let text = hundredths_text(n);
            &&& text.len() > whole.len() + 1
            &&& text.take(whole.len() as int) == whole
            &&& text[whole.len() as int] == '.'
            &&& text.last() != '0'
        },
        n < 0 ==> hundredths_text(n) == seq!['-'] + hundredths_text(-n),
{
    if n >= 0 {
        let whole = decimal((n / 100) as nat);
        if n % 100 == 0 {
            assert(hundredths_text(n) =~= whole);
        } else {
            assert(hundredths_text(n).take(whole.len() as int) =~= whole);
            assert(crate::text::digit(0) == '0');
        }
    } else {
        assert(hundredths_text(n) =~= seq!['-'] + hundredths_text(-n));
    }
}

} // verus!
