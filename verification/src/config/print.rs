//! Presets of the print dialog.

use vstd::prelude::*;

verus! {

/// A set of print options under a name.
#[derive(Debug, PartialEq, Eq)]
pub struct PrintPreset {
    pub id: String,
    pub name: String,
    pub is_builtin: bool,
    pub color_mode: String,
    pub orientation: String,
    pub duplex_index: Option<usize>,
    pub copies: u32,
    pub collate: bool,
    pub pages_per_sheet_index: Option<usize>,
    pub layout_direction: String,
    pub margins: String,
    pub scaling: String,
    pub custom_scaling_input: u32,
    pub page_selection: String,
    pub custom_range_input: String,
}

/// A preset, as a value.
pub struct PresetView {
    pub id: Seq<char>,
    pub name: Seq<char>,
    pub is_builtin: bool,
    pub color_mode: Seq<char>,
    pub orientation: Seq<char>,
    pub duplex_index: Option<usize>,
    pub copies: u32,
    pub collate: bool,
    pub pages_per_sheet_index: Option<usize>,
    pub layout_direction: Seq<char>,
    pub margins: Seq<char>,
    pub scaling: Seq<char>,
    pub custom_scaling_input: u32,
    pub page_selection: Seq<char>,
    pub custom_range_input: Seq<char>,
}

impl View for PrintPreset {
    type V = PresetView;

    open spec fn view(&self) -> PresetView {
        PresetView {
            id: self.id@,
            name: self.name@,
            is_builtin: self.is_builtin,
            color_mode: self.color_mode@,
            orientation: self.orientation@,
            duplex_index: self.duplex_index,
            copies: self.copies,
            collate: self.collate,
            pages_per_sheet_index: self.pages_per_sheet_index,
            layout_direction: self.layout_direction@,
            margins: self.margins@,
            scaling: self.scaling@,
            custom_scaling_input: self.custom_scaling_input,
            page_selection: self.page_selection@,
            custom_range_input: self.custom_range_input@,
        }
    }
}

impl Clone for PrintPreset {
    fn clone(&self) -> (r: Self)
        ensures
            r == *self,
    {
        PrintPreset {
            id: self.id.clone(),
            name: self.name.clone(),
            is_builtin: self.is_builtin,
            color_mode: self.color_mode.clone(),
            orientation: self.orientation.clone(),
            duplex_index: self.duplex_index,
            copies: self.copies,
            collate: self.collate,
            pages_per_sheet_index: self.pages_per_sheet_index,
            layout_direction: self.layout_direction.clone(),
            margins: self.margins.clone(),
            scaling: self.scaling.clone(),
            custom_scaling_input: self.custom_scaling_input,
            page_selection: self.page_selection.clone(),
            custom_range_input: self.custom_range_input.clone(),
        }
    }
}

/// A preset that is always there: everything as usual but for the colours.
pub open spec fn builtin_preset(id: Seq<char>, name: Seq<char>, color_mode: Seq<char>) -> PresetView {
    PresetView {
        id,
        name,
        is_builtin: true,
        color_mode,
        orientation: "Portrait"@,
        duplex_index: Some(0usize),
        copies: 1,
        collate: false,
        pages_per_sheet_index: Some(0usize),
        layout_direction: "LRTB"@,
        margins: "Default"@,
        scaling: "Auto"@,
        custom_scaling_input: 100,
        page_selection: "All"@,
        custom_range_input: Seq::empty(),
    }
}

/// The presets that are always there, in the order in which they are offered.
pub open spec fn builtin_presets() -> Seq<PresetView> {
    seq![
        builtin_preset("builtin-default"@, "Default"@, "Color"@),
        builtin_preset("builtin-bw"@, "Black and White"@, "Monochrome"@),
        builtin_preset("builtin-color"@, "Color"@, "Color"@),
    ]
}

/// A sequence of presets, as values.
pub open spec fn preset_views(presets: Seq<PrintPreset>) -> Seq<PresetView> {
    presets.map_values(|preset: PrintPreset| preset@)
}

/// The page selection of a preset that names none.
pub fn default_page_selection() -> (r: String)
    ensures
        r@ == "All"@,
{
    "All".to_owned()
}

impl PrintPreset {
    /// A preset that is always there.
    pub fn builtin(id: &str, name: &str, color_mode: &str) -> (r: Self)
        ensures
            r@ == builtin_preset(id@, name@, color_mode@),
    {
        PrintPreset {
            id: id.to_owned(),
            name: name.to_owned(),
            is_builtin: true,
            color_mode: color_mode.to_owned(),
            orientation: "Portrait".to_owned(),
            duplex_index: Some(0),
            copies: 1,
            collate: false,
            pages_per_sheet_index: Some(0),
            layout_direction: "LRTB".to_owned(),
            margins: "Default".to_owned(),
            scaling: "Auto".to_owned(),
            custom_scaling_input: 100,
            page_selection: default_page_selection(),
            custom_range_input: String::new(),
        }
    }

    /// The preset for everything as usual.
    pub fn default_preset() -> (r: Self)
        ensures
            r@ == builtin_presets()[0],
    {
        PrintPreset::builtin("builtin-default", "Default", "Color")
    }

    /// The preset for printing in colour.
    pub fn color_preset() -> (r: Self)
        ensures
            r@ == builtin_presets()[2],
    {
        PrintPreset::builtin("builtin-color", "Color", "Color")
    }

    /// The preset for printing in black and white.
    pub fn bw_preset() -> (r: Self)
        ensures
            r@ == builtin_presets()[1],
    {
        PrintPreset::builtin("builtin-bw", "Black and White", "Monochrome")
    }
}

/// Print dialog settings.
#[derive(Debug, PartialEq, Eq)]
pub struct Print {
    pub custom_presets: Vec<PrintPreset>,
    pub last_used_preset_id: Option<String>,
}

impl Default for Print {
    fn default() -> (r: Self)
        ensures
            r.custom_presets@ == Seq::<PrintPreset>::empty(),
            r.last_used_preset_id is None,
    {
        Print { custom_presets: Vec::new(), last_used_preset_id: None }
    }
}

impl Print {
    /// The presets that are always there and behind them the custom ones.
    pub fn all_presets(&self) -> (r: Vec<PrintPreset>)
        ensures
            preset_views(r@) == builtin_presets() + preset_views(self.custom_presets@),
    {
        let mut list: Vec<PrintPreset> = Vec::new();
        list.push(PrintPreset::default_preset());
        list.push(PrintPreset::bw_preset());
        list.push(PrintPreset::color_preset());
        let mut custom = self.custom_presets.clone();
        proof {
            assert(custom@ =~= self.custom_presets@);
            assert(preset_views(list@) =~= builtin_presets());
            assert(preset_views(list@ + custom@) =~= preset_views(list@) + preset_views(custom@));
        }
        list.append(&mut custom);
        list
    }
}

/// The presets that are always there keep their identifiers, are marked as such, print one copy of all
/// pages and differ in nothing but identifier, name and colour. Only the one for black and white prints
/// without colour.
pub proof fn law_builtin_presets_differ_in_colour(i: int)
    ensures
        builtin_presets().len() == 3,
        builtin_presets()[0].id == "builtin-default"@,
        builtin_presets()[1].id == "builtin-bw"@,
        builtin_presets()[2].id == "builtin-color"@,
        builtin_presets()[0].color_mode == "Color"@,
        builtin_presets()[1].color_mode == "Monochrome"@,
        builtin_presets()[2].color_mode == "Color"@,
        0 <= i < 3 ==> {
            let preset = builtin_presets()[i];
            &&& preset.is_builtin
            &&& preset.copies == 1
            &&& !preset.collate
            &&& preset.custom_scaling_input == 100
            &&& preset.page_selection == "All"@
            &&& preset.custom_range_input.len() == 0
            &&& preset.orientation == "Portrait"@
            &&& preset.layout_direction == "LRTB"@
            &&& preset.margins == "Default"@
            &&& preset.scaling == "Auto"@
            &&& preset == (PresetView {
                id: preset.id,
                name: preset.name,
                color_mode: preset.color_mode,
                ..builtin_presets()[0]
            })
        },
{
}

} // verus!
