//! Context-sensitive help: which help topic belongs to which dialog control.

use vstd::prelude::*;

use crate::util::ResourceId;

verus! {

/// The (control, help context) pairs of the Custom dialog.
pub open spec fn spec_pref_help_ids() -> Seq<(u16, u16)> {
    seq![
        (ResourceId::HeightEdit.spec_id(), ResourceId::PrefEditHeight.spec_id()),
        (ResourceId::WidthEdit.spec_id(), ResourceId::PrefEditWidth.spec_id()),
        (ResourceId::MinesEdit.spec_id(), ResourceId::PrefEditMines.spec_id()),
        (ResourceId::HeightText.spec_id(), ResourceId::PrefEditHeight.spec_id()),
        (ResourceId::WidthText.spec_id(), ResourceId::PrefEditWidth.spec_id()),
        (ResourceId::MinesText.spec_id(), ResourceId::PrefEditMines.spec_id()),
    ]
}

/// The (control, help context) pairs of the best times dialog.
pub open spec fn spec_best_help_ids() -> Seq<(u16, u16)> {
    seq![
        (ResourceId::ResetBtn.spec_id(), ResourceId::BestBtnReset.spec_id()),
        (ResourceId::SText1.spec_id(), ResourceId::SText.spec_id()),
        (ResourceId::SText2.spec_id(), ResourceId::SText.spec_id()),
        (ResourceId::SText3.spec_id(), ResourceId::SText.spec_id()),
        (ResourceId::BeginTime.spec_id(), ResourceId::SText.spec_id()),
        (ResourceId::InterTime.spec_id(), ResourceId::SText.spec_id()),
        (ResourceId::ExpertTime.spec_id(), ResourceId::SText.spec_id()),
        (ResourceId::BeginName.spec_id(), ResourceId::SText.spec_id()),
        (ResourceId::InterName.spec_id(), ResourceId::SText.spec_id()),
        (ResourceId::ExpertName.spec_id(), ResourceId::SText.spec_id()),
    ]
}

/// The (control, help context) pairs of the Custom dialog.
pub fn pref_help_ids() -> (r: Vec<(u16, u16)>)
    ensures
        r@ == spec_pref_help_ids(),
{
    let mut v: Vec<(u16, u16)> = Vec::new();
    v.push((ResourceId::HeightEdit.id(), ResourceId::PrefEditHeight.id()));
    v.push((ResourceId::WidthEdit.id(), ResourceId::PrefEditWidth.id()));
    v.push((ResourceId::MinesEdit.id(), ResourceId::PrefEditMines.id()));
    v.push((ResourceId::HeightText.id(), ResourceId::PrefEditHeight.id()));
    v.push((ResourceId::WidthText.id(), ResourceId::PrefEditWidth.id()));
    v.push((ResourceId::MinesText.id(), ResourceId::PrefEditMines.id()));
    assert(v@ =~= spec_pref_help_ids());
    v
}

/// The (control, help context) pairs of the best times dialog.
pub fn best_help_ids() -> (r: Vec<(u16, u16)>)
    ensures
        r@ == spec_best_help_ids(),
{
    let mut v: Vec<(u16, u16)> = Vec::new();
    v.push((ResourceId::ResetBtn.id(), ResourceId::BestBtnReset.id()));
    v.push((ResourceId::SText1.id(), ResourceId::SText.id()));
    v.push((ResourceId::SText2.id(), ResourceId::SText.id()));
    v.push((ResourceId::SText3.id(), ResourceId::SText.id()));
    v.push((ResourceId::BeginTime.id(), ResourceId::SText.id()));
    v.push((ResourceId::InterTime.id(), ResourceId::SText.id()));
    v.push((ResourceId::ExpertTime.id(), ResourceId::SText.id()));
    v.push((ResourceId::BeginName.id(), ResourceId::SText.id()));
    v.push((ResourceId::InterName.id(), ResourceId::SText.id()));
    v.push((ResourceId::ExpertName.id(), ResourceId::SText.id()));
    assert(v@ =~= spec_best_help_ids());
    v
}

/// The help topic opened by "help on Help": the "Using the Help Viewer"
/// topic inside the game's help file.
pub fn help_on_help_topic() -> (r: &'static str)
    ensures
        r@ == "::/topics/nthelp_overview.htm"@,
{
    "::/topics/nthelp_overview.htm"
}

} // verus!
