use vstd::prelude::*;
use vstd::string::*;

verus! {

/// The colour in which a row is drawn.
#[derive(Clone, Copy, Debug, PartialEq, Eq, Structural)]
pub enum RowColor {
    Yellow,
    Green,
    LightRed,
}

/// The colour of a row: yellow under the cursor, else green when the
/// session is running and light red when it is not.
pub open spec fn row_color(selected: bool, running: bool) -> RowColor {
    if selected {
        RowColor::Yellow
    } else if running {
        RowColor::Green
    } else {
        RowColor::LightRed
    }
}

/// What a row stands for.
pub struct RowView {
    pub label: Seq<char>,
    pub selected: bool,
    pub running: bool,
}

/// One row of the list of sessions, as it is handed to the renderer.
#[derive(Debug)]
pub struct Row {
    pub label: String,
    pub selected: bool,
    pub running: bool,
}

impl View for Row {
    type V = RowView;

    open spec fn view(&self) -> RowView {
        RowView { label: self.label@, selected: self.selected, running: self.running }
    }
}

impl Row {
    /// The colour in which this row is drawn.
    pub fn color(&self) -> (color: RowColor)
        ensures
            color == row_color(self.selected, self.running),
    {
        match (self.selected, self.running) {
            (true, _) => RowColor::Yellow,
            (_, true) => RowColor::Green,
            (_, false) => RowColor::LightRed,
        }
    }
}

/// What a list of rows stands for.
pub open spec fn row_views(rows: Seq<Row>) -> Seq<RowView> {
    rows.map_values(|row: Row| row@)
}

/// The width of the box that shows the name of the environment: one column
/// for each character and two for the border.
pub open spec fn box_width(characters: nat) -> Option<u16> {
    if characters + 2 <= u16::MAX {
        Some((characters + 2) as u16)
    } else {
        None
    }
}

/// The width of the box that shows `environment`, as far as a width can
/// hold it.
pub fn namespace_width(environment: &str) -> (width: Option<u16>)
    ensures
        width == box_width(environment@.len()),
{
    let characters = environment.unicode_len();
    if characters <= 0xfffd {
        Some((characters + 2) as u16)
    } else {
        None
    }
}

} // verus!
