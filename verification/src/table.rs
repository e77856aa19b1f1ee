//! Text tables. A table's contents are laid out as plain values
//! ([`TableLayout`]), handed cell by cell to a `comfy_table::Table`, and
//! rendered by that crate.

use vstd::prelude::*;

use comfy_table::presets::{NOTHING, UTF8_FULL_CONDENSED};
use comfy_table::{Cell, Color, ContentArrangement, Table};

verus! {

#[verifier::external_type_specification]
#[verifier::external_body]
pub struct ExTable(comfy_table::Table);

#[verifier::external_type_specification]
#[verifier::external_body]
pub struct ExCell(comfy_table::Cell);

/// The foreground colors that the tables use.
#[derive(Clone, Copy, PartialEq, Eq, Structural)]
pub enum CellColor {
    Cyan,
    Green,
    DarkGrey,
    Red,
    Yellow,
}

/// The parts of `s` between line feeds (`str::split('\n')`): one more
/// part than there are line feeds.
pub open spec fn newline_split(s: Seq<char>) -> Seq<Seq<char>>
    decreases s.len(),
{
    if s.len() == 0 {
        seq![seq![]]
    } else {
        let prev = newline_split(s.drop_last());
        if s.last() == '\n' {
            prev.push(seq![])
        } else {
            prev.update(prev.len() - 1, prev.last().push(s.last()))
        }
    }
}

/// The lines of text that a `comfy_table::Cell` holds.
pub uninterp spec fn cell_lines(c: comfy_table::Cell) -> Seq<Seq<char>>;

/// The foreground color of a `comfy_table::Cell`, among the colors that
/// this library gives cells.
pub uninterp spec fn cell_fg(c: comfy_table::Cell) -> Option<CellColor>;

/// The header row of a `comfy_table::Table`, each cell as its lines and
/// its foreground color.
pub uninterp spec fn table_header(t: comfy_table::Table) -> Option<Seq<(Seq<Seq<char>>, Option<CellColor>)>>;

/// The rows of a `comfy_table::Table`, each cell as its lines and its
/// foreground color.
pub uninterp spec fn table_rows(t: comfy_table::Table) -> Seq<Seq<(Seq<Seq<char>>, Option<CellColor>)>>;

/// The settings of a `comfy_table::Table` that decide how it is drawn,
/// besides its cells: the border preset loaded by this library (`None`
/// for the preset a new table starts with), whether the content is
/// arranged dynamically, the width set on the table, whether styling is
/// enforced, and whether terminal detection is switched off
/// (`force_no_tty`).
pub struct TableSettings {
    pub borders: Option<Borders>,
    pub dynamic: bool,
    pub width: Option<u16>,
    pub styled: bool,
    pub detached: bool,
}

/// The settings of a `comfy_table::Table`.
pub uninterp spec fn table_settings(t: comfy_table::Table) -> TableSettings;

/// The text that `comfy_table` writes (`Display`) for a table with this
/// header and these rows (each cell as its lines and its foreground color,
/// with no other cell styling) and these settings, when terminal detection
/// is switched off, and with the colour codes of styled cells left out or
/// not (`crossterm` leaves them out when the process's environment sets
/// `NO_COLOR`).
pub uninterp spec fn table_text(
    header: Option<Seq<(Seq<Seq<char>>, Option<CellColor>)>>,
    rows: Seq<Seq<(Seq<Seq<char>>, Option<CellColor>)>>,
    settings: TableSettings,
    colors_suppressed: bool,
) -> Seq<char>;

/// `s` with its border preset replaced.
pub open spec fn with_borders(s: TableSettings, b: Borders) -> TableSettings {
    TableSettings { borders: Some(b), dynamic: s.dynamic, width: s.width, styled: s.styled, detached: s.detached }
}

/// A cell as its lines and its foreground color.
pub open spec fn cells_view(cs: Seq<comfy_table::Cell>) -> Seq<(Seq<Seq<char>>, Option<CellColor>)> {
    cs.map_values(|c: comfy_table::Cell| (cell_lines(c), cell_fg(c)))
}

/// `comfy_table::Cell::new` on a text: the cell holds the text split at
/// line feeds and has no foreground color.
#[verifier::external_body]
fn new_cell(text: &str) -> (c: comfy_table::Cell)
    ensures
        cell_lines(c) == newline_split(text@),
        cell_fg(c) is None,
{
    Cell::new(text)
}

/// `comfy_table::Cell::fg`: the same cell with the given foreground color.
#[verifier::external_body]
fn with_fg(c: comfy_table::Cell, color: CellColor) -> (r: comfy_table::Cell)
    ensures
        cell_lines(r) == cell_lines(c),
        cell_fg(r) == Some(color),
{
    c.fg(
        match color {
            CellColor::Cyan => Color::Cyan,
            CellColor::Green => Color::Green,
            CellColor::DarkGrey => Color::DarkGrey,
            CellColor::Red => Color::Red,
            CellColor::Yellow => Color::Yellow,
        },
    )
}

/// `comfy_table::Table::new`: a table without header or rows, with its
/// default preset, no content arrangement, no width, no enforced styling
/// and terminal detection on.
#[verifier::external_body]
fn new_table() -> (t: comfy_table::Table)
    ensures
        table_header(t) is None,
        table_rows(t) == Seq::<Seq<(Seq<Seq<char>>, Option<CellColor>)>>::empty(),
        table_settings(t) == (TableSettings {
            borders: None,
            dynamic: false,
            width: None,
            styled: false,
            detached: false,
        }),
{
    Table::new()
}

/// `comfy_table::Table::load_preset` with `UTF8_FULL_CONDENSED`. The
/// header, the rows and the other settings stay as they are; the preset
/// sets every border character, so the one before does not matter.
#[verifier::external_body]
fn use_condensed_borders(t: &mut comfy_table::Table)
    ensures
        table_header(*final(t)) == table_header(*old(t)),
        table_rows(*final(t)) == table_rows(*old(t)),
        table_settings(*final(t)) == with_borders(table_settings(*old(t)), Borders::Condensed),
{
    t.load_preset(UTF8_FULL_CONDENSED);
}

/// `comfy_table::Table::load_preset` with `NOTHING`. The header, the rows
/// and the other settings stay as they are; the preset removes every
/// border character, so the one before does not matter.
#[verifier::external_body]
fn use_no_borders(t: &mut comfy_table::Table)
    ensures
        table_header(*final(t)) == table_header(*old(t)),
        table_rows(*final(t)) == table_rows(*old(t)),
        table_settings(*final(t)) == with_borders(table_settings(*old(t)), Borders::Nothing),
{
    t.load_preset(NOTHING);
}

/// `comfy_table::Table::set_content_arrangement` with `Dynamic`. The
/// header, the rows and the other settings stay as they are.
#[verifier::external_body]
fn arrange_dynamically(t: &mut comfy_table::Table)
    ensures
        table_header(*final(t)) == table_header(*old(t)),
        table_rows(*final(t)) == table_rows(*old(t)),
        table_settings(*final(t)) == (TableSettings { dynamic: true, ..table_settings(*old(t)) }),
{
    t.set_content_arrangement(ContentArrangement::Dynamic);
}

/// `comfy_table::Table::set_header`: the cells become the header row.
#[verifier::external_body]
fn set_header_cells(t: &mut comfy_table::Table, cells: Vec<comfy_table::Cell>)
    ensures
        table_header(*final(t)) == Some(cells_view(cells@)),
        table_rows(*final(t)) == table_rows(*old(t)),
        table_settings(*final(t)) == table_settings(*old(t)),
{
    t.set_header(cells);
}

/// `comfy_table::Table::add_row`: the cells become a new last row.
#[verifier::external_body]
fn add_row_cells(t: &mut comfy_table::Table, cells: Vec<comfy_table::Cell>)
    ensures
        table_header(*final(t)) == table_header(*old(t)),
        table_rows(*final(t)) == table_rows(*old(t)).push(cells_view(cells@)),
        table_settings(*final(t)) == table_settings(*old(t)),
{
    t.add_row(cells);
}

/// `comfy_table::Table::force_no_tty`: the table no longer consults the
/// terminal, neither for its width nor for whether to style its cells.
/// The header, the rows and the other settings stay as they are.
#[verifier::external_body]
fn detach_from_terminal(t: &mut comfy_table::Table)
    ensures
        table_header(*final(t)) == table_header(*old(t)),
        table_rows(*final(t)) == table_rows(*old(t)),
        table_settings(*final(t)) == (TableSettings { detached: true, ..table_settings(*old(t)) }),
{
    t.force_no_tty();
}

/// `comfy_table::Table::enforce_styling`: cell colors are written whatever
/// the terminal. The header, the rows and the other settings stay as they
/// are.
#[verifier::external_body]
fn enforce_styling(t: &mut comfy_table::Table)
    ensures
        table_header(*final(t)) == table_header(*old(t)),
        table_rows(*final(t)) == table_rows(*old(t)),
        table_settings(*final(t)) == (TableSettings { styled: true, ..table_settings(*old(t)) }),
{
    t.enforce_styling();
}

/// `comfy_table::Table::set_width`: the table is drawn for this width. The
/// header, the rows and the other settings stay as they are.
#[verifier::external_body]
fn set_table_width(t: &mut comfy_table::Table, width: u16)
    ensures
        table_header(*final(t)) == table_header(*old(t)),
        table_rows(*final(t)) == table_rows(*old(t)),
        table_settings(*final(t)) == (TableSettings { width: Some(width), ..table_settings(*old(t)) }),
{
    t.set_width(width);
}

/// `comfy_table::Table::is_tty`: whether standard output is a terminal
/// (for a table whose terminal detection is on). It depends on the
/// process's surroundings, so nothing is stated of it.
#[verifier::external_body]
fn probe_tty(t: &comfy_table::Table) -> (r: bool) {
    t.is_tty()
}

/// `comfy_table::Table::width`: for a table without a width of its own,
/// the width of the terminal, if standard output is one and its size can
/// be read. It depends on the terminal, so nothing is stated of it.
#[verifier::external_body]
fn probe_width(t: &comfy_table::Table) -> (r: Option<u16>) {
    t.width()
}

/// The text of a `comfy_table::Table` (its `Display`), once the table no
/// longer consults the terminal: what `table_text` names for its header,
/// rows and settings, with colour codes suppressed or not. Whether
/// `crossterm` suppresses them depends on the process's environment
/// (`NO_COLOR`), so which of the two is left open.
#[verifier::external_body]
fn render_table(t: &comfy_table::Table) -> (s: String)
    requires
        table_settings(*t).detached,
    ensures
        exists|colors_suppressed: bool|
            s@ == #[trigger] table_text(table_header(*t), table_rows(*t), table_settings(*t), colors_suppressed),
{
    t.to_string()
}

/// A text and its foreground color.
pub struct StyledText {
    pub text: String,
    pub color: Option<CellColor>,
}

/// The plain description of a table: the header cells (if it has a
/// header), then the rows.
pub struct TableLayout {
    pub header: Option<Vec<StyledText>>,
    pub rows: Vec<Vec<StyledText>>,
}

/// A styled text as its characters and color.
pub open spec fn styled_view(s: StyledText) -> (Seq<char>, Option<CellColor>) {
    (s.text@, s.color)
}

/// A row of styled texts as characters and colors.
pub open spec fn row_view(r: Seq<StyledText>) -> Seq<(Seq<char>, Option<CellColor>)> {
    r.map_values(|s: StyledText| styled_view(s))
}

/// The rows of a layout as characters and colors.
pub open spec fn rows_view(rs: Seq<Vec<StyledText>>) -> Seq<Seq<(Seq<char>, Option<CellColor>)>> {
    rs.map_values(|r: Vec<StyledText>| row_view(r@))
}

/// The cells that a row of styled texts becomes: each text split at line
/// feeds, with its color.
pub open spec fn as_cells(r: Seq<(Seq<char>, Option<CellColor>)>) -> Seq<(Seq<Seq<char>>, Option<CellColor>)> {
    r.map_values(|x: (Seq<char>, Option<CellColor>)| (newline_split(x.0), x.1))
}

/// The header cells of a table with the given header.
pub open spec fn header_cells(h: Option<Vec<StyledText>>) -> Option<Seq<(Seq<Seq<char>>, Option<CellColor>)>> {
    match h {
        Some(v) => Some(as_cells(row_view(v@))),
        None => None,
    }
}

/// The cells of the rows of a layout.
pub open spec fn layout_cells(rs: Seq<Vec<StyledText>>) -> Seq<Seq<(Seq<Seq<char>>, Option<CellColor>)>> {
    rs.map_values(|r: Vec<StyledText>| as_cells(row_view(r@)))
}

fn styled_cell(s: &StyledText) -> (c: comfy_table::Cell)
    ensures
        cell_lines(c) == newline_split(s.text@),
        cell_fg(c) == s.color,
{
    let c = new_cell(s.text.as_str());
    match s.color {
        Some(color) => with_fg(c, color),
        None => c,
    }
}

fn styled_cells(r: &Vec<StyledText>) -> (cs: Vec<comfy_table::Cell>)
    ensures
        cells_view(cs@) == as_cells(row_view(r@)),
{
    let mut cs: Vec<comfy_table::Cell> = Vec::new();
    let mut i: usize = 0;
    while i < r.len()
        invariant
            i <= r@.len(),
            cs@.len() == i,
            forall|k: int|
                0 <= k < i ==> cell_lines(#[trigger] cs@[k]) == newline_split(r@[k].text@)
                    && cell_fg(cs@[k]) == r@[k].color,
        decreases r@.len() - i,
    {
        cs.push(styled_cell(&r[i]));
        i += 1;
    }
    assert(cells_view(cs@) =~= as_cells(row_view(r@)));
    cs
}

/// The style of a table: the borders of the lists, or none at all.
pub enum Borders {
    Condensed,
    Nothing,
}

/// A `comfy_table::Table` holding the layout: its header (when the layout
/// has header cells) and its rows, in the dynamic arrangement.
pub fn fill_table(layout: &TableLayout, borders: Borders) -> (t: comfy_table::Table)
    ensures
        table_header(t) == header_cells(layout.header),
        table_rows(t) == layout_cells(layout.rows@),
        table_settings(t) == (TableSettings {
            borders: Some(borders),
            dynamic: true,
            width: None,
            styled: false,
            detached: false,
        }),
{
    let ghost b = borders;
    let mut t = new_table();
    match borders {
        Borders::Condensed => use_condensed_borders(&mut t),
        Borders::Nothing => use_no_borders(&mut t),
    }
    arrange_dynamically(&mut t);
    match &layout.header {
        Some(h) => {
            let cells = styled_cells(h);
            set_header_cells(&mut t, cells);
        },
        None => {},
    }
    let ghost rv = layout_cells(layout.rows@);
    let mut i: usize = 0;
    while i < layout.rows.len()
        invariant
            i <= layout.rows@.len(),
            rv == layout_cells(layout.rows@),
            table_header(t) == header_cells(layout.header),
            table_rows(t) == rv.take(i as int),
            table_settings(t) == (TableSettings {
                borders: Some(b),
                dynamic: true,
                width: None,
                styled: false,
                detached: false,
            }),
        decreases layout.rows@.len() - i,
    {
        let cells = styled_cells(&layout.rows[i]);
        add_row_cells(&mut t, cells);
        i += 1;
        assert(table_rows(t) =~= rv.take(i as int));
    }
    assert(rv.take(layout.rows@.len() as int) =~= rv);
    t
}

/// The view of a layout's header.
pub open spec fn header_view(h: Option<Vec<StyledText>>) -> Option<Seq<(Seq<char>, Option<CellColor>)>> {
    match h {
        Some(v) => Some(row_view(v@)),
        None => None,
    }
}

/// The settings a table is drawn with, given whether standard output is a
/// terminal and the terminal's width (if it could be read): the borders,
/// dynamic arrangement, the terminal's width and styling on a terminal, no
/// width and no styling elsewhere.
pub open spec fn terminal_settings(borders: Borders, tty: bool, width: Option<u16>) -> TableSettings {
    TableSettings {
        borders: Some(borders),
        dynamic: true,
        width: if tty {
            width
        } else {
            None
        },
        styled: tty,
        detached: true,
    }
}

/// The text of a table with header `hv` and rows `rv` (each cell as its
/// text and color) drawn with `settings`, colour codes suppressed or not.
pub open spec fn layout_text(
    hv: Option<Seq<(Seq<char>, Option<CellColor>)>>,
    rv: Seq<Seq<(Seq<char>, Option<CellColor>)>>,
    settings: TableSettings,
    colors_suppressed: bool,
) -> Seq<char> {
    table_text(
        match hv {
            Some(h) => Some(as_cells(h)),
            None => None,
        },
        rv.map_values(|r: Seq<(Seq<char>, Option<CellColor>)>| as_cells(r)),
        settings,
        colors_suppressed,
    )
}

/// `r` is the text of the table with header `hv` and rows `rv`, drawn with
/// `borders` for a terminal as `tty` and `width` describe it, with colour
/// codes suppressed or not.
pub open spec fn draws_table(
    r: Seq<char>,
    hv: Option<Seq<(Seq<char>, Option<CellColor>)>>,
    rv: Seq<Seq<(Seq<char>, Option<CellColor>)>>,
    borders: Borders,
    tty: bool,
    width: Option<u16>,
) -> bool {
    exists|colors_suppressed: bool|
        r == #[trigger] layout_text(hv, rv, terminal_settings(borders, tty, width), colors_suppressed)
}

/// The text of the table that holds the layout, drawn with `borders` for
/// standard output as `tty` (whether it is a terminal) and `width` (the
/// terminal's width, if it could be read) describe it.
pub fn render_layout_for(layout: &TableLayout, borders: Borders, tty: bool, width: Option<u16>) -> (r: String)
    ensures
        draws_table(r@, header_view(layout.header), rows_view(layout.rows@), borders, tty, width),
{
    let ghost b = borders;
    let mut t = fill_table(layout, borders);
    detach_from_terminal(&mut t);
    if tty {
        enforce_styling(&mut t);
        match width {
            Some(w) => set_table_width(&mut t, w),
            None => {},
        }
    }
    assert(table_settings(t) == terminal_settings(b, tty, width));
    assert(header_cells(layout.header) == match header_view(layout.header) {
        Some(h) => Some(as_cells(h)),
        None => None,
    });
    assert(layout_cells(layout.rows@) =~= rows_view(layout.rows@).map_values(
        |r: Seq<(Seq<char>, Option<CellColor>)>| as_cells(r),
    ));
    let r = render_table(&t);
    proof {
        let nc = choose|nc: bool| r@ == table_text(table_header(t), table_rows(t), table_settings(t), nc);
        assert(r@ == layout_text(header_view(layout.header), rows_view(layout.rows@), terminal_settings(b, tty, width), nc));
    }
    r
}

/// The text of the table that holds the layout, drawn with `borders` for
/// standard output as it is: the terminal's width and styling when it is
/// a terminal.
pub fn render_layout(layout: &TableLayout, borders: Borders) -> (r: String)
    ensures
        exists|tty: bool, width: Option<u16>|
            #[trigger] draws_table(r@, header_view(layout.header), rows_view(layout.rows@), borders, tty, width),
{
    let probe = new_table();
    let tty = probe_tty(&probe);
    let width = probe_width(&probe);
    render_layout_for(layout, borders, tty, width)
}

} // verus!
