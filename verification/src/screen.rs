//! What each page of the terminal interface shows, and where.

use vstd::prelude::*;

use crate::domain::PlaybackStatus;
use crate::editor::{line_column, line_cursor, line_scroll, line_text};
use crate::text::{join, pad_left, pad_right, repeat_char, text_or_empty, to_decimal};
use crate::tui::{find_key, App};

verus! {

/// A rectangle of cells.
#[derive(Clone, Copy, Debug, PartialEq, Eq, Structural)]
pub struct Area {
    pub x: u16,
    pub y: u16,
    pub width: u16,
    pub height: u16,
}

/// A sum that stops at the largest number there is.
pub open spec fn capped(a: int) -> u16 {
    if a > u16::MAX {
        u16::MAX
    } else {
        a as u16
    }
}

/// A sum that stops at the largest number there is.
fn capped_sum(a: u16, b: u16) -> (sum: u16)
    ensures
        sum == capped(a + b),
{
    if a <= u16::MAX - b {
        a + b
    } else {
        u16::MAX
    }
}

/// A number as far as it fits.
fn capped_size(n: usize) -> (size: u16)
    ensures
        size == capped(n as int),
{
    if n <= 65535 {
        n as u16
    } else {
        u16::MAX
    }
}

impl Area {
    /// The first column to the right of the area.
    pub open spec fn right_edge(self) -> u16 {
        capped(self.x + self.width)
    }

    /// The first row below the area.
    pub open spec fn bottom_edge(self) -> u16 {
        capped(self.y + self.height)
    }

    /// The area has no cells.
    pub open spec fn is_void(self) -> bool {
        self.width == 0 || self.height == 0
    }

    /// One row with so many columns, as far as there are columns.
    pub open spec fn row_at(x: u16, y: u16, width: u16) -> Area {
        Area {
            x,
            y,
            width: (capped(x + width) - x) as u16,
            height: (capped(y + 1) - y) as u16,
        }
    }

    /// One row with so many columns, as far as there are columns.
    pub fn row(x: u16, y: u16, width: u16) -> (area: Self)
        ensures
            area == Area::row_at(x, y, width),
    {
        Area { x, y, width: capped_sum(x, width) - x, height: capped_sum(y, 1) - y }
    }

    /// Whether the area has no cells.
    pub fn is_empty(&self) -> (void: bool)
        ensures
            void == self.is_void(),
    {
        self.width == 0 || self.height == 0
    }

    /// The first row below the area.
    pub fn bottom(&self) -> (row: u16)
        ensures
            row == self.bottom_edge(),
    {
        capped_sum(self.y, self.height)
    }

    /// The first column to the right of the area.
    pub fn right(&self) -> (column: u16)
        ensures
            column == self.right_edge(),
    {
        capped_sum(self.x, self.width)
    }
}

/// The rows that `ratatui` gives to a top, a middle of at least some height, and a bottom.
pub uninterp spec fn rows_split(area: Area, top: u16, least: u16, bottom: u16) -> (Area, Area, Area);

/// Divides an area into rows with `ratatui::layout::Layout::vertical` and its `areas`: a top and a
/// bottom of fixed heights and a middle of at least some height. The outcome depends on the area
/// and the heights alone; how the layout solver settles what does not fit is not restated here.
#[verifier::external_body]
fn split_rows(area: Area, top: u16, least: u16, bottom: u16) -> (areas: (Area, Area, Area))
    ensures
        areas == rows_split(area, top, least, bottom),
{
    let rect = ratatui::layout::Rect::new(area.x, area.y, area.width, area.height);
    let fixed = ratatui::layout::Constraint::Length(top);
    let rest = ratatui::layout::Constraint::Min(least);
    let last = ratatui::layout::Constraint::Length(bottom);
    let [a, b, c] = ratatui::layout::Layout::vertical([fixed, rest, last]).areas(rect);
    (
        Area { x: a.x, y: a.y, width: a.width, height: a.height },
        Area { x: b.x, y: b.y, width: b.width, height: b.height },
        Area { x: c.x, y: c.y, width: c.width, height: c.height },
    )
}

/// The way in which two areas stand.
#[derive(Clone, Copy, Debug, PartialEq, Eq, Structural)]
pub enum Side {
    /// One beside the other.
    Beside,
    /// One below the other.
    Below,
}

/// The areas that `ratatui` gives to two parts.
pub uninterp spec fn parts_split(area: Area, side: Side, first: u16, second: u16) -> (Area, Area);

/// Divides an area into two parts of so many percent with `ratatui::layout::Layout::new` and its
/// `areas`. The outcome depends on the area, the side and the percentages alone; how the layout
/// solver rounds is not restated here.
#[verifier::external_body]
fn split_parts(area: Area, side: Side, first: u16, second: u16) -> (areas: (Area, Area))
    ensures
        areas == parts_split(area, side, first, second),
{
    let rect = ratatui::layout::Rect::new(area.x, area.y, area.width, area.height);
    let direction = match side {
        Side::Beside => ratatui::layout::Direction::Horizontal,
        Side::Below => ratatui::layout::Direction::Vertical,
    };
    let one = ratatui::layout::Constraint::Percentage(first);
    let two = ratatui::layout::Constraint::Percentage(second);
    let [a, b] = ratatui::layout::Layout::new(direction, [one, two]).areas(rect);
    (
        Area { x: a.x, y: a.y, width: a.width, height: a.height },
        Area { x: b.x, y: b.y, width: b.width, height: b.height },
    )
}

/// What is left of an area inside a border: one cell less on each side, as far as there are cells.
pub open spec fn inside(area: Area) -> Area {
    Area {
        x: if capped(area.x + 1) <= area.right_edge() {
            capped(area.x + 1)
        } else {
            area.right_edge()
        },
        y: if capped(area.y + 1) <= area.bottom_edge() {
            capped(area.y + 1)
        } else {
            area.bottom_edge()
        },
        width: if area.width >= 2 {
            (area.width - 2) as u16
        } else {
            0
        },
        height: if area.height >= 2 {
            (area.height - 2) as u16
        } else {
            0
        },
    }
}

/// What is left of an area inside a border by `ratatui::widgets::Block::bordered` and its `inner`:
/// the border takes one cell on each side, as far as there are cells.
#[verifier::external_body]
fn bordered_inner(area: Area) -> (inner: Area)
    ensures
        inner == inside(area),
{
    let rect = ratatui::layout::Rect {
        x: area.x,
        y: area.y,
        width: area.width,
        height: area.height,
    };
    let rest = ratatui::widgets::Block::bordered().inner(rect);
    Area { x: rest.x, y: rest.y, width: rest.width, height: rest.height }
}

/// The areas of the pages' names, of the page and of the line at the bottom.
pub fn screen_areas(whole: Area) -> (areas: (Area, Area, Area))
    ensures
        areas == rows_split(whole, 3, 8, 2),
{
    split_rows(whole, 3, 8, 2)
}

/// Where the cover and what is said of the track stand: beside each other where there is room.
pub open spec fn now_playing_split(page: Area) -> (Area, Area) {
    if page.width >= 70 {
        parts_split(page, Side::Beside, 40, 60)
    } else {
        parts_split(page, Side::Below, 45, 55)
    }
}

/// Where the cover and what is said of the track stand.
pub fn now_playing_areas(page: Area) -> (areas: (Area, Area))
    ensures
        areas == now_playing_split(page),
{
    if page.width >= 70 {
        split_parts(page, Side::Beside, 40, 60)
    } else {
        split_parts(page, Side::Below, 45, 55)
    }
}

/// What is left of a page inside its border.
pub fn page_inner(page: Area) -> (inner: Area)
    ensures
        inner == inside(page),
{
    bordered_inner(page)
}

/// The word for a switch.
pub open spec fn switch_word(value: bool) -> Seq<char> {
    if value {
        "yes"@
    } else {
        "no"@
    }
}

/// The word for a switch.
pub fn yes_no(value: bool) -> (word: &'static str)
    ensures
        word@ == switch_word(value),
{
    if value {
        "yes"
    } else {
        "no"
    }
}

/// A label and what it labels: labels end in one column.
pub open spec fn detail_view(label: Seq<char>, value: Seq<char>) -> (Seq<char>, Seq<char>) {
    (crate::text::padded_left(label, 13) + ": "@, value)
}

/// A label and what it labels.
pub fn detail(label: &str, value: &str) -> (line: (String, String))
    ensures
        (line.0@, line.1@) == detail_view(label@, value@),
{
    let mut text = pad_left(label, 13);
    text.append(": ");
    (text, value.to_owned())
}

/// What stands at the bottom: what is said, and else which keys there are.
pub open spec fn footer_text(message: Seq<char>) -> Seq<char> {
    if message.len() == 0 {
        "1–5/←→ tabs  s save  q quit"@
    } else {
        message
    }
}

/// How an output stands in one word or sentence.
pub open spec fn output_text(
    works: bool,
    word: Seq<char>,
    enabled: bool,
    detail: Seq<char>,
) -> Seq<char> {
    if works {
        word
    } else if enabled {
        detail
    } else {
        "disabled"@
    }
}

/// What is said of what is playing, each line with what stands out first.
pub open spec fn now_playing_view(app: crate::tui::AppView) -> Seq<(Seq<char>, Seq<char>)> {
    match app.state.selected {
        None => seq![
            (Seq::<char>::empty(), "Nothing eligible is playing."@),
            (
                Seq::<char>::empty(),
                "Open Players and explicitly allow trusted music players."@,
            ),
        ],
        Some(player) => seq![
            detail_view(
                "Track"@,
                match player.track {
                    Some(track) => track.title,
                    None => "—"@,
                },
            ),
            detail_view(
                "Artists"@,
                match player.track {
                    Some(track) => crate::text::joined(track.artists, ", "@),
                    None => Seq::empty(),
                },
            ),
            detail_view(
                "Album"@,
                match player.track {
                    Some(track) => track.album,
                    None => "—"@,
                },
            ),
            detail_view("Player"@, player.identity + " ("@ + player.key + ")"@),
            detail_view(
                "Verification"@,
                match app.state.verification {
                    Some(verification) => verification.status.label(),
                    None => "pending"@,
                },
            ),
            detail_view(
                "MQTT"@,
                output_text(
                    app.state.mqtt.connected,
                    "connected"@,
                    app.config.mqtt.enabled,
                    app.state.mqtt.detail,
                ),
            ),
            detail_view(
                "Webhook"@,
                output_text(
                    app.state.webhook.delivered,
                    "delivered"@,
                    app.config.webhook.enabled,
                    app.state.webhook.detail,
                ),
            ),
        ],
    }
}

/// The contents of lines.
pub open spec fn line_views(lines: Seq<(String, String)>) -> Seq<(Seq<char>, Seq<char>)> {
    lines.map_values(|line: (String, String)| (line.0@, line.1@))
}

/// A line of the list of players: whether it is under the cursor, and its text.
pub open spec fn player_row(app: crate::tui::AppView, index: int) -> (bool, Seq<char>) {
    let player = app.state.players[index];
    let place = crate::tui::place_of(app.config.allowlist, player.key);
    let allowed = if place < app.config.allowlist.len() {
        "[✓] priority "@ + crate::text::decimal((place + 1) as nat)
    } else {
        "[ ] denied"@
    };
    (
        index == app.player_cursor,
        crate::text::padded_left(allowed, 14) + "  "@ + crate::text::padded_right(player.key, 20)
            + " "@ + crate::text::padded_right(status_word(player.status), 10) + " "@
            + player.identity,
    )
}

/// The word for what a player does.
pub open spec fn status_word(status: PlaybackStatus) -> Seq<char> {
    match status {
        PlaybackStatus::Playing => "playing"@,
        PlaybackStatus::Paused => "paused"@,
        PlaybackStatus::Stopped => "stopped"@,
        PlaybackStatus::Unknown => "unknown"@,
    }
}

/// The list of players.
pub open spec fn players_view(app: crate::tui::AppView) -> Seq<(bool, Seq<char>)> {
    if app.state.players.len() == 0 {
        seq![(false, "No MPRIS players discovered in this D-Bus session."@)]
    } else {
        Seq::new(app.state.players.len(), |i: int| player_row(app, i))
    }
}

/// The contents of a list.
pub open spec fn row_views(rows: Seq<(bool, String)>) -> Seq<(bool, Seq<char>)> {
    rows.map_values(|row: (bool, String)| (row.0, row.1@))
}

/// The word for what a player does.
fn word_for(status: PlaybackStatus) -> (word: &'static str)
    ensures
        word@ == status_word(status),
{
    match status {
        PlaybackStatus::Playing => "playing",
        PlaybackStatus::Paused => "paused",
        PlaybackStatus::Stopped => "stopped",
        PlaybackStatus::Unknown => "unknown",
    }
}

/// How an output stands in one word or sentence.
fn output_words(works: bool, word: &str, enabled: bool, detail: &String) -> (text: String)
    ensures
        text@ == output_text(works, word@, enabled, detail@),
{
    if works {
        word.to_owned()
    } else if enabled {
        detail.clone()
    } else {
        "disabled".to_owned()
    }
}

impl App {
    /// What stands at the bottom.
    pub fn footer(&self) -> (text: String)
        ensures
            text@ == footer_text(self@.message),
    {
        if self.message.as_str().is_empty() {
            "1–5/←→ tabs  s save  q quit".to_owned()
        } else {
            self.message.clone()
        }
    }

    /// What is said of what is playing.
    pub fn now_playing_lines(&self) -> (lines: Vec<(String, String)>)
        ensures
            line_views(lines@) == now_playing_view(self@),
    {
        let mut lines: Vec<(String, String)> = Vec::new();
        match &self.state.selected {
            None => {
                lines.push((String::new(), "Nothing eligible is playing.".to_owned()));
                lines.push(
                    (
                        String::new(),
                        "Open Players and explicitly allow trusted music players.".to_owned(),
                    ),
                );
            },
            Some(player) => {
                let (title, artists, album) = match &player.track {
                    Some(track) => (
                        track.title.clone(),
                        join(&track.artists, ", "),
                        track.album.clone(),
                    ),
                    None => ("—".to_owned(), String::new(), "—".to_owned()),
                };
                lines.push(detail("Track", title.as_str()));
                lines.push(detail("Artists", artists.as_str()));
                lines.push(detail("Album", album.as_str()));
                let mut name = player.identity.clone();
                name.append(" (");
                name.append(player.key.as_str());
                name.append(")");
                lines.push(detail("Player", name.as_str()));
                let status = match &self.state.verification {
                    Some(verification) => verification.status.to_text(),
                    None => "pending".to_owned(),
                };
                lines.push(detail("Verification", status.as_str()));
                let mqtt = output_words(
                    self.state.mqtt.connected,
                    "connected",
                    self.config.mqtt.enabled,
                    &self.state.mqtt.detail,
                );
                lines.push(detail("MQTT", mqtt.as_str()));
                let webhook = output_words(
                    self.state.webhook.delivered,
                    "delivered",
                    self.config.webhook.enabled,
                    &self.state.webhook.detail,
                );
                lines.push(detail("Webhook", webhook.as_str()));
            },
        }
        assert(line_views(lines@) =~= now_playing_view(self@));
        lines
    }

    /// A line of the list of players.
    fn player_line(&self, index: usize) -> (row: (bool, String))
        requires
            index < self.state.players@.len(),
        ensures
            (row.0, row.1@) == player_row(self@, index as int),
    {
        let player = &self.state.players[index];
        assert(self@.state.players[index as int] == player@);
        let allowed = match find_key(&self.config.players.allowlist, &player.key) {
            Some(place) => {
                let mut text = "[✓] priority ".to_owned();
                assert(place < self.config.players.allowlist.len());
                text.append(to_decimal((place + 1) as u64).as_str());
                text
            },
            None => "[ ] denied".to_owned(),
        };
        let mut text = pad_left(allowed.as_str(), 14);
        text.append("  ");
        text.append(pad_right(player.key.as_str(), 20).as_str());
        text.append(" ");
        text.append(pad_right(word_for(player.status), 10).as_str());
        text.append(" ");
        text.append(player.identity.as_str());
        (index == self.player_cursor, text)
    }

    /// The list of players.
    pub fn player_rows(&self) -> (rows: Vec<(bool, String)>)
        ensures
            row_views(rows@) == players_view(self@),
    {
        let mut rows: Vec<(bool, String)> = Vec::new();
        if self.state.players.len() == 0 {
            rows.push((false, "No MPRIS players discovered in this D-Bus session.".to_owned()));
        } else {
            for i in 0..self.state.players.len()
                invariant
                    rows@.len() == i,
                    forall|j: int|
                        0 <= j < i ==> (#[trigger] rows@[j]).0 == player_row(self@, j).0
                            && rows@[j].1@ == player_row(self@, j).1,
            {
                rows.push(self.player_line(i));
            }
        }
        assert(row_views(rows@) =~= players_view(self@));
        rows
    }
}

/// A field of a page as it is drawn.
#[derive(Debug)]
pub struct FieldDrawing {
    pub label_area: Area,
    pub label: String,
    pub value_area: Area,
    pub value: String,
    /// How many columns of the value are left out at its front.
    pub scroll: u16,
    /// The field is drawn in reverse.
    pub selected: bool,
    /// The cell of the cursor, while the field is edited.
    pub cursor: Option<(u16, u16)>,
}

/// The contents of a [`FieldDrawing`].
#[verifier::ext_equal]
pub ghost struct FieldView {
    pub label_area: Area,
    pub label: Seq<char>,
    pub value_area: Area,
    pub value: Seq<char>,
    pub scroll: u16,
    pub selected: bool,
    pub cursor: Option<(u16, u16)>,
}

impl View for FieldDrawing {
    type V = FieldView;

    open spec fn view(&self) -> FieldView {
        FieldView {
            label_area: self.label_area,
            label: self.label@,
            value_area: self.value_area,
            value: self.value@,
            scroll: self.scroll,
            selected: self.selected,
            cursor: self.cursor,
        }
    }
}

/// The row of a field: the first one is the third of the page.
pub open spec fn field_row(inner: Area, index: int) -> u16 {
    capped(capped(inner.y + 2) + capped(index))
}

/// How many columns the label takes.
pub open spec fn label_width(inner: Area) -> u16 {
    if inner.width < 12 {
        inner.width
    } else {
        12
    }
}

/// Where the value stands: behind the label.
pub open spec fn value_area(inner: Area, index: int) -> Area {
    let width = Area::row_at(inner.x, field_row(inner, index), inner.width).width;
    Area::row_at(
        capped(inner.x + label_width(inner)),
        field_row(inner, index),
        if width >= label_width(inner) {
            (width - label_width(inner)) as u16
        } else {
            0
        },
    )
}

/// How many columns of the value are seen, one being left for the cursor.
pub open spec fn visible_width(inner: Area, index: int) -> nat {
    if value_area(inner, index).width == 0 {
        0
    } else {
        (value_area(inner, index).width - 1) as nat
    }
}

/// A secret value is shown as one dot for each of its characters.
pub open spec fn shown_value(secret: bool, value: Seq<char>) -> Seq<char> {
    if secret {
        crate::text::repeated('•', value.len())
    } else {
        value
    }
}

/// The cell of a cursor at this column of a value whose first columns are left out. It never
/// leaves the area.
pub open spec fn cursor_cell(area: Area, column: nat, scroll: nat) -> (u16, u16) {
    let shown = capped(
        if column >= scroll {
            column - scroll
        } else {
            0
        },
    );
    let x = capped(area.x + shown);
    let last = if area.right_edge() == 0 {
        0u16
    } else {
        (area.right_edge() - 1) as u16
    };
    (
        if x <= last {
            x
        } else {
            last
        },
        area.y,
    )
}

/// A field as it is drawn, if its row is on the page. While it is edited, the cursor stands at
/// some column, and some columns are left out in front.
pub open spec fn field_view(
    inner: Area,
    index: int,
    selected: bool,
    label: Seq<char>,
    value: Seq<char>,
    secret: bool,
    place: Option<(nat, nat)>,
) -> Option<FieldView> {
    let row = field_row(inner, index);
    if row >= inner.bottom_edge() {
        None
    } else {
        let area = value_area(inner, index);
        Some(
            FieldView {
                label_area: Area::row_at(inner.x, row, label_width(inner)),
                label: crate::text::padded_left(label, 10) + ": "@,
                value_area: area,
                value: shown_value(secret, value),
                scroll: match place {
                    Some(place) => capped(place.1 as int),
                    None => 0,
                },
                selected,
                cursor: match place {
                    Some(place) => if area.width > 0 {
                        Some(cursor_cell(area, place.0, place.1))
                    } else {
                        None
                    },
                    None => None,
                },
            },
        )
    }
}

/// The contents of an optional drawing.
pub open spec fn opt_field(field: Option<FieldDrawing>) -> Option<FieldView> {
    match field {
        Some(field) => Some(field@),
        None => None,
    }
}

/// The column of the cursor and the columns that are left out, as plain numbers.
pub open spec fn place_view(place: Option<(usize, usize)>) -> Option<(nat, nat)> {
    match place {
        Some(place) => Some((place.0 as nat, place.1 as nat)),
        None => None,
    }
}

/// Draws a field.
pub fn lay_out_field(
    inner: Area,
    index: usize,
    selected: bool,
    label: &str,
    value: &str,
    secret: bool,
    place: Option<(usize, usize)>,
) -> (field: Option<FieldDrawing>)
    ensures
        opt_field(field) == field_view(
            inner,
            index as int,
            selected,
            label@,
            value@,
            secret,
            place_view(place),
        ),
{
    let row: u16 = capped_sum(capped_sum(inner.y, 2), capped_size(index));
    if row >= inner.bottom() {
        return None;
    }
    let width: u16 = if inner.width < 12 {
        inner.width
    } else {
        12
    };
    let whole = Area::row(inner.x, row, inner.width);
    let label_area = Area::row(inner.x, row, width);
    let value_area = Area::row(
        capped_sum(inner.x, width),
        row,
        if whole.width >= width {
            whole.width - width
        } else {
            0
        },
    );
    let mut text = pad_left(label, 10);
    text.append(": ");
    let shown = if secret {
        repeat_char('•', value.unicode_len())
    } else {
        value.to_owned()
    };
    let mut scroll: u16 = 0;
    let mut cursor: Option<(u16, u16)> = None;
    if let Some((column, left_out)) = place {
        scroll = capped_size(left_out);
        if value_area.width > 0 {
            let ahead: usize = if column >= left_out {
                column - left_out
            } else {
                0
            };
            let x: u16 = capped_sum(value_area.x, capped_size(ahead));
            let edge: u16 = value_area.right();
            let last: u16 = if edge == 0 {
                0
            } else {
                edge - 1
            };
            cursor =
            Some(
                (
                    if x <= last {
                        x
                    } else {
                        last
                    },
                    value_area.y,
                ),
            );
        }
    }
    Some(
        FieldDrawing { label_area, label: text, value_area, value: shown, scroll, selected, cursor },
    )
}

/// Where the cursor of an edited line stands. The characters of a secret fill one column each.
pub open spec fn edited_place(
    line: crate::editor::LineView,
    secret: bool,
    width: nat,
) -> (nat, nat) {
    if secret {
        (
            line.cursor,
            if line.cursor > width {
                (line.cursor - width) as nat
            } else {
                0
            },
        )
    } else {
        (
            crate::editor::cursor_column(line.text, line.cursor),
            crate::editor::scroll_columns(line.text, line.cursor, width),
        )
    }
}

/// A field of a page: the one that is edited shows the line, and the others the settings.
pub open spec fn page_field(
    inner: Area,
    index: int,
    selected_field: int,
    editing: bool,
    label: Seq<char>,
    configured: Seq<char>,
    secret: bool,
    line: crate::editor::LineView,
) -> Option<FieldView> {
    if index == selected_field && editing {
        field_view(
            inner,
            index,
            true,
            label,
            line.text,
            secret,
            Some(edited_place(line, secret, visible_width(inner, index))),
        )
    } else {
        field_view(inner, index, index == selected_field, label, configured, secret, None)
    }
}

/// Draws a field of a page.
pub fn draw_input_field(
    inner: Area,
    index: usize,
    selected_field: usize,
    editing: bool,
    label: &str,
    configured: &str,
    secret: bool,
    input: &tui_input::Input,
) -> (field: Option<FieldDrawing>)
    ensures
        opt_field(field) == page_field(
            inner,
            index as int,
            selected_field as int,
            editing,
            label@,
            configured@,
            secret,
            crate::editor::line_of(*input),
        ),
{
    let selected = index == selected_field;
    if !(selected && editing) {
        return lay_out_field(inner, index, selected, label, configured, secret, None);
    }
    let row: u16 = capped_sum(capped_sum(inner.y, 2), capped_size(index));
    let label_width: u16 = if inner.width < 12 {
        inner.width
    } else {
        12
    };
    let whole = Area::row(inner.x, row, inner.width);
    let area = Area::row(
        capped_sum(inner.x, label_width),
        row,
        if whole.width >= label_width {
            whole.width - label_width
        } else {
            0
        },
    );
    let width: usize = if area.width == 0 {
        0
    } else {
        area.width as usize - 1
    };
    let place: (usize, usize) = if secret {
        let cursor: usize = line_cursor(input);
        (
            cursor,
            if cursor > width {
                cursor - width
            } else {
                0
            },
        )
    } else {
        (line_column(input), line_scroll(input, width))
    };
    lay_out_field(inner, index, true, label, line_text(input), secret, Some(place))
}

/// A page of settings: a line at the top, fields, and a line of help.
#[derive(Debug)]
pub struct Page {
    pub header_area: Area,
    pub header: String,
    pub fields: Vec<FieldDrawing>,
    pub help: Option<(Area, String)>,
}

/// The contents of a [`Page`].
#[verifier::ext_equal]
pub ghost struct PageView {
    pub header_area: Area,
    pub header: Seq<char>,
    pub fields: Seq<FieldView>,
    pub help: Option<(Area, Seq<char>)>,
}

/// The contents of drawn fields.
pub open spec fn drawn(fields: Seq<FieldDrawing>) -> Seq<FieldView> {
    fields.map_values(|field: FieldDrawing| field@)
}

impl View for Page {
    type V = PageView;

    open spec fn view(&self) -> PageView {
        PageView {
            header_area: self.header_area,
            header: self.header@,
            fields: drawn(self.fields@),
            help: match self.help {
                Some(help) => Some((help.0, help.1@)),
                None => None,
            },
        }
    }
}

/// The contents of an optional page.
pub open spec fn opt_page(page: Option<Page>) -> Option<PageView> {
    match page {
        Some(page) => Some(page@),
        None => None,
    }
}

/// The fields whose rows are on the page.
pub open spec fn on_page(fields: Seq<Option<FieldView>>) -> Seq<FieldView>
    decreases fields.len(),
{
    if fields.len() == 0 {
        Seq::empty()
    } else {
        match fields.last() {
            Some(field) => on_page(fields.drop_last()).push(field),
            None => on_page(fields.drop_last()),
        }
    }
}

/// A line of help in some row, if the row is on the page.
pub open spec fn help_at(inner: Area, rows: u16, text: Seq<char>) -> Option<(Area, Seq<char>)> {
    let row = capped(inner.y + rows);
    if row < inner.bottom_edge() {
        Some((Area::row_at(inner.x, row, inner.width), text))
    } else {
        None
    }
}

/// A line of help in some row, if the row is on the page.
fn help_line(inner: Area, rows: u16, text: &str) -> (help: Option<(Area, String)>)
    ensures
        (match help {
            Some(help) => Some((help.0, help.1@)),
            None => None,
        }) == help_at(inner, rows, text@),
{
    let row: u16 = capped_sum(inner.y, rows);
    if row < inner.bottom() {
        Some((Area::row(inner.x, row, inner.width), text.to_owned()))
    } else {
        None
    }
}

/// Adds a field to those on the page, if its row is.
fn push_drawn(
    fields: &mut Vec<FieldDrawing>,
    field: Option<FieldDrawing>,
    Ghost(before): Ghost<Seq<Option<FieldView>>>,
)
    requires
        drawn(old(fields)@) == on_page(before),
    ensures
        drawn(final(fields)@) == on_page(before.push(opt_field(field))),
{
    let ghost so_far = fields@;
    assert(before.push(opt_field(field)).drop_last() =~= before);
    if let Some(field) = field {
        fields.push(field);
        assert(drawn(fields@) =~= drawn(so_far).push(field@));
    }
}

/// The broker's fields.
pub open spec fn mqtt_fields(app: crate::tui::AppView, inner: Area) -> Seq<Option<FieldView>> {
    let field = |index: int, label: Seq<char>, value: Seq<char>|
        page_field(
            inner,
            index,
            app.mqtt_field as int,
            app.editing,
            label,
            value,
            index == 2,
            app.mqtt_line,
        );
    seq![
        field(0, "Host"@, app.config.mqtt.host),
        field(1, "Username"@, crate::text::or_empty(app.config.mqtt.username)),
        field(2, "Password"@, crate::text::or_empty(app.config.mqtt.password)),
        field(3, "Topic"@, app.config.mqtt.topic),
        field(4, "Port"@, crate::text::decimal(app.config.mqtt.port as nat)),
    ]
}

/// The line at the top of the page of the broker.
pub open spec fn mqtt_header(mqtt: crate::config::MqttConfigView) -> Seq<char> {
    "Enabled: "@ + switch_word(mqtt.enabled) + "   TLS: "@ + switch_word(mqtt.tls) + "   QoS: "@
        + crate::text::decimal(mqtt.qos as nat) + "   Retain: "@ + switch_word(mqtt.retain)
}

/// The page of the broker; nothing where there is no room.
pub open spec fn mqtt_page_view(app: crate::tui::AppView, inner: Area) -> Option<PageView> {
    if inner.is_void() {
        None
    } else {
        Some(
            PageView {
                header_area: Area::row_at(inner.x, inner.y, inner.width),
                header: mqtt_header(app.config.mqtt),
                fields: on_page(mqtt_fields(app, inner)),
                help: help_at(
                    inner,
                    8,
                    "↑/↓ field  Enter edit  e enable  l TLS  o QoS  r retain  c test"@,
                ),
            },
        )
    }
}

/// The webhook's fields.
pub open spec fn webhook_fields(app: crate::tui::AppView, inner: Area) -> Seq<Option<FieldView>> {
    let field = |index: int, label: Seq<char>, value: Seq<char>|
        page_field(
            inner,
            index,
            app.webhook_field as int,
            app.editing,
            label,
            value,
            index == 1,
            app.webhook_line,
        );
    seq![
        field(0, "URL"@, app.config.webhook.url),
        field(1, "Bearer"@, crate::text::or_empty(app.config.webhook.bearer_token)),
    ]
}

/// The line at the top of the page of the webhook.
pub open spec fn webhook_header(enabled: bool, detail: Seq<char>) -> Seq<char> {
    "Enabled: "@ + switch_word(enabled) + "   Status: "@ + if enabled {
        detail
    } else {
        "disabled"@
    }
}

/// The page of the webhook; nothing where there is no room.
pub open spec fn webhook_page_view(app: crate::tui::AppView, inner: Area) -> Option<PageView> {
    if inner.is_void() {
        None
    } else {
        Some(
            PageView {
                header_area: Area::row_at(inner.x, inner.y, inner.width),
                header: webhook_header(app.config.webhook.enabled, app.state.webhook.detail),
                fields: on_page(webhook_fields(app, inner)),
                help: help_at(
                    inner,
                    5,
                    "↑/↓ field  Enter edit  e enable  c send diagnostic test POST"@,
                ),
            },
        )
    }
}

/// The lines of the page of the verification; the first one says what is told, and stands out.
pub open spec fn verification_view(publish_unverified: bool) -> Seq<Seq<char>> {
    seq![
        if publish_unverified {
            "UNSAFE FALLBACK: unverified metadata may be published and can expose private names."@
        } else {
            "Privacy mode: only known MusicBrainz title-and-artist pairs are published."@
        },
        ""@,
        "A match requires score ≥ 90, an exact normalized title, and every"@,
        "reported MPRIS artist to match a MusicBrainz credited artist."@,
        "Album and duration select better enrichment IDs but never block a"@,
        "known song merely because releases, remasters, or recordings differ."@,
        ""@,
        "Press f or Space to toggle the unsafe fallback override."@,
    ]
}

impl App {
    /// The page of the broker.
    pub fn mqtt_page(&self, inner: Area) -> (page: Option<Page>)
        ensures
            opt_page(page) == mqtt_page_view(self@, inner),
    {
        if inner.is_empty() {
            return None;
        }
        let mut header = "Enabled: ".to_owned();
        header.append(yes_no(self.config.mqtt.enabled));
        header.append("   TLS: ");
        header.append(yes_no(self.config.mqtt.tls));
        header.append("   QoS: ");
        header.append(to_decimal(self.config.mqtt.qos as u64).as_str());
        header.append("   Retain: ");
        header.append(yes_no(self.config.mqtt.retain));

        let mut fields: Vec<FieldDrawing> = Vec::new();
        let ghost mut all: Seq<Option<FieldView>> = Seq::empty();
        assert(drawn(fields@) =~= on_page(all));
        let host = self.mqtt_input_field(inner, 0, "Host", &self.config.mqtt.host);
        push_drawn(&mut fields, host, Ghost(all));
        proof {
            all = all.push(opt_field(host));
        }
        let username = text_or_empty(&self.config.mqtt.username);
        let username = self.mqtt_input_field(inner, 1, "Username", &username);
        push_drawn(&mut fields, username, Ghost(all));
        proof {
            all = all.push(opt_field(username));
        }
        let password = text_or_empty(&self.config.mqtt.password);
        let password = self.mqtt_input_field(inner, 2, "Password", &password);
        push_drawn(&mut fields, password, Ghost(all));
        proof {
            all = all.push(opt_field(password));
        }
        let topic = self.mqtt_input_field(inner, 3, "Topic", &self.config.mqtt.topic);
        push_drawn(&mut fields, topic, Ghost(all));
        proof {
            all = all.push(opt_field(topic));
        }
        let port = to_decimal(self.config.mqtt.port as u64);
        let port = self.mqtt_input_field(inner, 4, "Port", &port);
        push_drawn(&mut fields, port, Ghost(all));
        proof {
            all = all.push(opt_field(port));
            assert(all =~= mqtt_fields(self@, inner));
        }
        Some(
            Page {
                header_area: Area::row(inner.x, inner.y, inner.width),
                header,
                fields,
                help: help_line(
                    inner,
                    8,
                    "↑/↓ field  Enter edit  e enable  l TLS  o QoS  r retain  c test",
                ),
            },
        )
    }

    /// A field on the page of the broker; the password is secret.
    fn mqtt_input_field(&self, inner: Area, index: usize, label: &str, value: &String) -> (field:
        Option<FieldDrawing>)
        ensures
            opt_field(field) == page_field(
                inner,
                index as int,
                self@.mqtt_field as int,
                self@.editing,
                label@,
                value@,
                index == 2,
                self@.mqtt_line,
            ),
    {
        draw_input_field(
            inner,
            index,
            self.mqtt_field,
            self.editing,
            label,
            value.as_str(),
            index == 2,
            &self.mqtt_input,
        )
    }

    /// The page of the webhook.
    pub fn webhook_page(&self, inner: Area) -> (page: Option<Page>)
        ensures
            opt_page(page) == webhook_page_view(self@, inner),
    {
        if inner.is_empty() {
            return None;
        }
        let mut header = "Enabled: ".to_owned();
        header.append(yes_no(self.config.webhook.enabled));
        header.append("   Status: ");
        if self.config.webhook.enabled {
            header.append(self.state.webhook.detail.as_str());
        } else {
            header.append("disabled");
        }

        let mut fields: Vec<FieldDrawing> = Vec::new();
        let ghost mut all: Seq<Option<FieldView>> = Seq::empty();
        assert(drawn(fields@) =~= on_page(all));
        let url = self.webhook_input_field(inner, 0, "URL", &self.config.webhook.url);
        push_drawn(&mut fields, url, Ghost(all));
        proof {
            all = all.push(opt_field(url));
        }
        let bearer = text_or_empty(&self.config.webhook.bearer_token);
        let bearer = self.webhook_input_field(inner, 1, "Bearer", &bearer);
        push_drawn(&mut fields, bearer, Ghost(all));
        proof {
            all = all.push(opt_field(bearer));
            assert(all =~= webhook_fields(self@, inner));
        }
        Some(
            Page {
                header_area: Area::row(inner.x, inner.y, inner.width),
                header,
                fields,
                help: help_line(
                    inner,
                    5,
                    "↑/↓ field  Enter edit  e enable  c send diagnostic test POST",
                ),
            },
        )
    }

    /// A field on the page of the webhook; the token is secret.
    fn webhook_input_field(&self, inner: Area, index: usize, label: &str, value: &String) -> (field:
        Option<FieldDrawing>)
        ensures
            opt_field(field) == page_field(
                inner,
                index as int,
                self@.webhook_field as int,
                self@.editing,
                label@,
                value@,
                index == 1,
                self@.webhook_line,
            ),
    {
        draw_input_field(
            inner,
            index,
            self.webhook_field,
            self.editing,
            label,
            value.as_str(),
            index == 1,
            &self.webhook_input,
        )
    }

    /// The lines of the page of the verification.
    pub fn verification_lines(&self) -> (lines: Vec<String>)
        ensures
            crate::text::texts(lines@) == verification_view(self@.config.publish_unverified),
    {
        let mut lines: Vec<String> = Vec::new();
        if self.config.verification.publish_unverified {
            lines.push(
                "UNSAFE FALLBACK: unverified metadata may be published and can expose private names.".to_owned(),
            );
        } else {
            lines.push(
                "Privacy mode: only known MusicBrainz title-and-artist pairs are published.".to_owned(),
            );
        }
        lines.push("".to_owned());
        lines.push("A match requires score ≥ 90, an exact normalized title, and every".to_owned());
        lines.push("reported MPRIS artist to match a MusicBrainz credited artist.".to_owned());
        lines.push("Album and duration select better enrichment IDs but never block a".to_owned());
        lines.push(
            "known song merely because releases, remasters, or recordings differ.".to_owned(),
        );
        lines.push("".to_owned());
        lines.push("Press f or Space to toggle the unsafe fallback override.".to_owned());
        assert(crate::text::texts(lines@) =~= verification_view(self@.config.publish_unverified));
        lines
    }
}

/// The password is never shown: the page of the broker tells nothing of it but its length, whether
/// it is edited or not.
pub proof fn law_password_is_never_shown(
    app: crate::tui::AppView,
    password: Seq<char>,
    line: crate::editor::LineView,
    inner: Area,
)
    requires
        password.len() == crate::text::or_empty(app.config.mqtt.password).len(),
        app.mqtt_field == 2 ==> line.text.len() == app.mqtt_line.text.len() && line.cursor
            == app.mqtt_line.cursor,
        app.mqtt_field != 2 ==> line == app.mqtt_line,
    ensures
        ({
            let mqtt = crate::config::MqttConfigView {
                password: Some(password),
                ..app.config.mqtt
            };
            let other = crate::tui::AppView { mqtt_line: line, ..app.with_mqtt(mqtt) };
            mqtt_page_view(other, inner) == mqtt_page_view(app, inner)
        }),
{
    let mqtt = crate::config::MqttConfigView { password: Some(password), ..app.config.mqtt };
    let other = crate::tui::AppView { mqtt_line: line, ..app.with_mqtt(mqtt) };
    assert(mqtt_fields(other, inner) =~= mqtt_fields(app, inner));
}

/// The token is never shown: the page of the webhook tells nothing of it but its length, whether
/// it is edited or not.
pub proof fn law_token_is_never_shown(
    app: crate::tui::AppView,
    token: Seq<char>,
    line: crate::editor::LineView,
    inner: Area,
)
    requires
        token.len() == crate::text::or_empty(app.config.webhook.bearer_token).len(),
        app.webhook_field == 1 ==> line.text.len() == app.webhook_line.text.len() && line.cursor
            == app.webhook_line.cursor,
        app.webhook_field != 1 ==> line == app.webhook_line,
    ensures
        ({
            let webhook = crate::config::WebhookConfigView {
                bearer_token: Some(token),
                ..app.config.webhook
            };
            let other = crate::tui::AppView { webhook_line: line, ..app.with_webhook(webhook) };
            webhook_page_view(other, inner) == webhook_page_view(app, inner)
        }),
{
    let webhook = crate::config::WebhookConfigView {
        bearer_token: Some(token),
        ..app.config.webhook
    };
    let other = crate::tui::AppView { webhook_line: line, ..app.with_webhook(webhook) };
    assert(webhook_fields(other, inner) =~= webhook_fields(app, inner));
}

/// The cursor of an edited field stands inside the area of its value, whatever the line holds.
pub proof fn law_cursor_stays_in_its_field(area: Area, column: nat, scroll: nat)
    requires
        area.width > 0,
        area.x + area.width <= u16::MAX,
    ensures
        area.x <= cursor_cell(area, column, scroll).0 < area.x + area.width,
        cursor_cell(area, column, scroll).1 == area.y,
{
}

/// What is said of what is playing, line by line: the track, all of its artists, its album, the
/// player by its name and its key, what was found out of it, and how the broker and the webhook
/// stand. Without a selected player it is said that nothing plays.
pub proof fn law_lines_say_what_is_playing(app: crate::tui::AppView)
    ensures
        app.state.selected is None ==> now_playing_view(app).len() == 2 && now_playing_view(app)[0]
            == (Seq::<char>::empty(), "Nothing eligible is playing."@),
        app.state.selected is Some ==> {
            let lines = now_playing_view(app);
            let player = app.state.selected->0;
            &&& lines.len() == 7
            &&& ends_with(lines[0].0, "Track: "@) && ends_with(lines[1].0, "Artists: "@)
                && ends_with(lines[2].0, "Album: "@) && ends_with(lines[3].0, "Player: "@)
            &&& ends_with(lines[4].0, "Verification: "@) && ends_with(lines[5].0, "MQTT: "@)
                && ends_with(lines[6].0, "Webhook: "@)
            &&& forall|i: int| 0 <= i < 7 ==> (#[trigger] lines[i]).0.len() == 15
            &&& player.track is Some ==> lines[0].1 == player.track->0.title && lines[1].1
                == crate::text::joined(player.track->0.artists, ", "@) && lines[2].1
                == player.track->0.album
            &&& player.track is None ==> lines[1].1.len() == 0
            &&& lines[3].1 == player.identity + " ("@ + player.key + ")"@
            &&& app.state.verification is Some ==> lines[4].1
                == app.state.verification->0.status.label()
            &&& app.state.verification is None ==> lines[4].1 == "pending"@
            &&& app.state.mqtt.connected ==> lines[5].1 == "connected"@
            &&& !app.state.mqtt.connected && app.config.mqtt.enabled ==> lines[5].1
                == app.state.mqtt.detail
            &&& !app.state.mqtt.connected && !app.config.mqtt.enabled ==> lines[5].1 == "disabled"@
            &&& app.state.webhook.delivered ==> lines[6].1 == "delivered"@
            &&& !app.state.webhook.delivered && app.config.webhook.enabled ==> lines[6].1
                == app.state.webhook.detail
            &&& !app.state.webhook.delivered && !app.config.webhook.enabled ==> lines[6].1
                == "disabled"@
        },
{
    if app.state.selected is Some {
        lemma_label("Track"@, "Track: "@);
        lemma_label("Artists"@, "Artists: "@);
        lemma_label("Album"@, "Album: "@);
        lemma_label("Player"@, "Player: "@);
        lemma_label("Verification"@, "Verification: "@);
        lemma_label("MQTT"@, "MQTT: "@);
        lemma_label("Webhook"@, "Webhook: "@);
        lemma_labels();
    }
}

/// A text ends with another.
pub open spec fn ends_with(text: Seq<char>, end: Seq<char>) -> bool {
    text.len() >= end.len() && text.skip(text.len() - end.len()) == end
}

proof fn lemma_label(label: Seq<char>, whole: Seq<char>)
    ensures
        label.len() <= 13 && whole == label + ": "@ ==> detail_view(label, Seq::empty()).0.len()
            == 15 && ends_with(detail_view(label, Seq::empty()).0, whole),
{
    reveal_strlit(": ");
    if label.len() <= 13 && whole == label + ": "@ {
        crate::text::law_padding_fills_the_width(label, 13);
        let text = detail_view(label, Seq::empty()).0;
        let padded = crate::text::padded_left(label, 13);
        assert(padded.len() == 13);
        assert(padded.skip(13 - label.len()) =~= label);
        assert(text.skip(text.len() - whole.len()) =~= whole) by {
            assert forall|i: int| 0 <= i < whole.len() implies text.skip(
                text.len() - whole.len(),
            )[i] == whole[i] by {
                if i < label.len() {
                    assert(padded.skip(13 - label.len())[i] == label[i]);
                }
            }
        }
    }
}

proof fn lemma_labels()
    ensures
        "Track: "@ == "Track"@ + ": "@ && "Track"@.len() <= 13,
        "Artists: "@ == "Artists"@ + ": "@ && "Artists"@.len() <= 13,
        "Album: "@ == "Album"@ + ": "@ && "Album"@.len() <= 13,
        "Player: "@ == "Player"@ + ": "@ && "Player"@.len() <= 13,
        "Verification: "@ == "Verification"@ + ": "@ && "Verification"@.len() <= 13,
        "MQTT: "@ == "MQTT"@ + ": "@ && "MQTT"@.len() <= 13,
        "Webhook: "@ == "Webhook"@ + ": "@ && "Webhook"@.len() <= 13,
{
    reveal_strlit(": ");
    reveal_strlit("Track: ");
    reveal_strlit("Track");
    reveal_strlit("Artists: ");
    reveal_strlit("Artists");
    reveal_strlit("Album: ");
    reveal_strlit("Album");
    reveal_strlit("Player: ");
    reveal_strlit("Player");
    reveal_strlit("Verification: ");
    reveal_strlit("Verification");
    reveal_strlit("MQTT: ");
    reveal_strlit("MQTT");
    reveal_strlit("Webhook: ");
    reveal_strlit("Webhook");
    assert("Track: "@ =~= "Track"@ + ": "@);
    assert("Artists: "@ =~= "Artists"@ + ": "@);
    assert("Album: "@ =~= "Album"@ + ": "@);
    assert("Player: "@ =~= "Player"@ + ": "@);
    assert("Verification: "@ =~= "Verification"@ + ": "@);
    assert("MQTT: "@ =~= "MQTT"@ + ": "@);
    assert("Webhook: "@ =~= "Webhook"@ + ": "@);
}

/// Each player has a line of its own, in their order: it stands out under the cursor alone, says
/// at which place of the allowlist the player is or that it is denied, and ends with the player's
/// own name.
pub proof fn law_each_player_has_its_line(app: crate::tui::AppView, at: int)
    requires
        0 <= at < app.state.players.len(),
    ensures
        ({
            let rows = players_view(app);
            let player = app.state.players[at];
            let allowed = app.config.allowlist.contains(player.key);
            &&& rows.len() == app.state.players.len()
            &&& rows[at].0 <==> at == app.player_cursor
            &&& ends_with(rows[at].1, player.identity)
            &&& !allowed ==> exists|rest: Seq<char>|
                rows[at].1 == #[trigger] (crate::text::padded_left("[ ] denied"@, 14) + "  "@
                    + crate::text::padded_right(player.key, 20) + " "@ + rest)
            &&& forall|k: int|
                0 <= k < app.config.allowlist.len() && #[trigger] app.config.allowlist[k]
                    == player.key && !app.config.allowlist.take(k).contains(player.key) ==> exists|
                    rest: Seq<char>,
                |
                    rows[at].1 == #[trigger] (crate::text::padded_left(
                        "[✓] priority "@ + crate::text::decimal((k + 1) as nat),
                        14,
                    ) + "  "@ + crate::text::padded_right(player.key, 20) + " "@ + rest)
        }),
{
    let rows = players_view(app);
    let player = app.state.players[at];
    let list = app.config.allowlist;
    lemma_place(list, player.key);
    let place = crate::tui::place_of(list, player.key);
    let allowed = if place < list.len() {
        "[✓] priority "@ + crate::text::decimal((place + 1) as nat)
    } else {
        "[ ] denied"@
    };
    let head = crate::text::padded_left(allowed, 14) + "  "@ + crate::text::padded_right(
        player.key,
        20,
    ) + " "@;
    let status = crate::text::padded_right(status_word(player.status), 10) + " "@;
    let rest = status + player.identity;
    let text = rows[at].1;
    assert(text =~= head + rest);
    assert(text.skip(text.len() - player.identity.len()) =~= player.identity);
    assert forall|k: int|
        0 <= k < list.len() && #[trigger] list[k] == player.key && !list.take(k).contains(
            player.key,
        ) implies k == place by {
        if place < k {
            assert(list.take(k)[place] == player.key);
        }
        if k < place {
            assert(list[k] != player.key);
        }
    }
    if !list.contains(player.key) {
        assert(text == crate::text::padded_left("[ ] denied"@, 14) + "  "@
            + crate::text::padded_right(player.key, 20) + " "@ + rest);
    }
    assert forall|k: int|
        0 <= k < list.len() && #[trigger] list[k] == player.key && !list.take(k).contains(
            player.key,
        ) implies exists|rest: Seq<char>|
        text == #[trigger] (crate::text::padded_left(
            "[✓] priority "@ + crate::text::decimal((k + 1) as nat),
            14,
        ) + "  "@ + crate::text::padded_right(player.key, 20) + " "@ + rest) by {
        assert(k == place);
        assert(text == head + rest);
    }
}

proof fn lemma_place(list: Seq<Seq<char>>, key: Seq<char>)
    ensures
        ({
            let place = crate::tui::place_of(list, key);
            &&& 0 <= place <= list.len()
            &&& place < list.len() ==> list[place] == key
            &&& place < list.len() <==> list.contains(key)
            &&& forall|i: int| 0 <= i < place ==> #[trigger] list[i] != key
        }),
    decreases list.len(),
{
    if list.len() > 0 && list[0] != key {
        let rest = list.skip(1);
        lemma_place(rest, key);
        assert forall|i: int| 0 <= i < crate::tui::place_of(list, key) implies #[trigger] list[i]
            != key by {
            if i > 0 {
                assert(rest[i - 1] == list[i]);
            }
        }
        if list.contains(key) {
            let i = choose|i: int| 0 <= i < list.len() && list[i] == key;
            assert(rest[i - 1] == key);
        }
    }
}

/// What a player does has a word of its own.
pub proof fn law_words_for_what_players_do()
    ensures
        status_word(PlaybackStatus::Playing) == "playing"@,
        status_word(PlaybackStatus::Paused) == "paused"@,
        status_word(PlaybackStatus::Stopped) == "stopped"@,
        status_word(PlaybackStatus::Unknown) == "unknown"@,
        switch_word(true) == "yes"@,
        switch_word(false) == "no"@,
{
}

/// While nothing is edited, the page of the broker shows the settings as they are, each under its
/// own label and below the one before, but the password only as dots; the selected field alone
/// stands out, and no cursor is shown.
pub proof fn law_the_page_of_the_broker_shows_the_settings(
    app: crate::tui::AppView,
    inner: Area,
    at: int,
)
    requires
        !app.editing,
        0 <= at < 5,
        mqtt_fields(app, inner)[at] is Some,
    ensures
        ({
            let field = mqtt_fields(app, inner)[at]->0;
            &&& mqtt_fields(app, inner).len() == 5
            &&& field.selected <==> at == app.mqtt_field
            &&& field.cursor is None && field.scroll == 0
            &&& at == 0 ==> field.value == app.config.mqtt.host && field.label
                == crate::text::padded_left("Host"@, 10) + ": "@
            &&& at == 1 ==> field.value == crate::text::or_empty(app.config.mqtt.username)
                && field.label == crate::text::padded_left("Username"@, 10) + ": "@
            &&& at == 2 ==> field.label == crate::text::padded_left("Password"@, 10) + ": "@
                && field.value.len() == crate::text::or_empty(app.config.mqtt.password).len()
                && forall|i: int| 0 <= i < field.value.len() ==> #[trigger] field.value[i] == '•'
            &&& at == 3 ==> field.value == app.config.mqtt.topic && field.label
                == crate::text::padded_left("Topic"@, 10) + ": "@
            &&& at == 4 ==> field.value == crate::text::decimal(app.config.mqtt.port as nat)
                && field.label == crate::text::padded_left("Port"@, 10) + ": "@
        }),
{
}

/// While nothing is edited, the page of the webhook shows its settings as they are, but the token
/// only as dots.
pub proof fn law_the_page_of_the_webhook_shows_the_settings(
    app: crate::tui::AppView,
    inner: Area,
    at: int,
)
    requires
        !app.editing,
        0 <= at < 2,
        webhook_fields(app, inner)[at] is Some,
    ensures
        ({
            let field = webhook_fields(app, inner)[at]->0;
            &&& webhook_fields(app, inner).len() == 2
            &&& field.selected <==> at == app.webhook_field
            &&& field.cursor is None && field.scroll == 0
            &&& at == 0 ==> field.value == app.config.webhook.url && field.label
                == crate::text::padded_left("URL"@, 10) + ": "@
            &&& at == 1 ==> field.label == crate::text::padded_left("Bearer"@, 10) + ": "@
                && field.value.len() == crate::text::or_empty(app.config.webhook.bearer_token).len()
                && forall|i: int| 0 <= i < field.value.len() ==> #[trigger] field.value[i] == '•'
        }),
{
}

/// The field that is edited shows the line and its cursor, the others the settings; a secret one
/// shows dots for the line too, and the cursor behind as many dots as characters are in front of
/// it, as far as there is room.
pub proof fn law_the_edited_field_shows_its_line(
    inner: Area,
    index: int,
    selected_field: int,
    label: Seq<char>,
    configured: Seq<char>,
    secret: bool,
    line: crate::editor::LineView,
)
    requires
        0 <= index,
        page_field(inner, index, selected_field, true, label, configured, secret, line) is Some,
    ensures
        ({
            let field = page_field(
                inner,
                index,
                selected_field,
                true,
                label,
                configured,
                secret,
                line,
            )->0;
            &&& field.selected <==> index == selected_field
            &&& index != selected_field ==> field.cursor is None && field.value == shown_value(
                secret,
                configured,
            )
            &&& index == selected_field && !secret ==> field.value == line.text
            &&& index == selected_field && secret ==> field.value.len() == line.text.len()
                && forall|i: int| 0 <= i < field.value.len() ==> #[trigger] field.value[i] == '•'
            &&& index == selected_field && field.value_area.width > 0 ==> field.cursor is Some
            &&& index == selected_field && secret && field.value_area.width > 0 && line.cursor
                < field.value_area.width && field.value_area.x + field.value_area.width
                <= u16::MAX ==> field.scroll == 0 && field.cursor == Some(
                ((field.value_area.x + line.cursor) as u16, field.value_area.y),
            )
        }),
{
}

/// Fields stand one below the other, from the third row of the page on, with the label in the first
/// twelve columns and the value behind; a field whose row is not on the page is left out.
pub proof fn law_fields_stand_one_below_the_other(
    inner: Area,
    index: int,
    selected: bool,
    label: Seq<char>,
    value: Seq<char>,
    secret: bool,
)
    requires
        0 <= index <= 10,
        inner.x + inner.width <= u16::MAX,
        inner.y + inner.height <= u16::MAX,
    ensures
        ({
            let field = field_view(inner, index, selected, label, value, secret, None);
            &&& field is Some <==> index + 2 < inner.height
            &&& field is Some ==> {
                let field = field->0;
                let wide = if inner.width < 12 {
                    inner.width
                } else {
                    12
                };
                &&& field.label_area == (Area {
                    x: inner.x,
                    y: (inner.y + 2 + index) as u16,
                    width: wide,
                    height: 1,
                })
                &&& field.value_area == (Area {
                    x: (inner.x + wide) as u16,
                    y: (inner.y + 2 + index) as u16,
                    width: (inner.width - wide) as u16,
                    height: 1,
                })
                &&& field.selected == selected
            }
        }),
{
}

/// Only fields whose rows are on the page are shown, all of these, in their order.
pub proof fn law_fields_on_the_page_are_shown(
    fields: Seq<Option<FieldView>>,
    field: Option<FieldView>,
)
    ensures
        field is Some ==> on_page(fields.push(field)) == on_page(fields).push(field->0),
        field is None ==> on_page(fields.push(field)) == on_page(fields),
        on_page(Seq::empty()) == Seq::<FieldView>::empty(),
{
    assert(fields.push(field).drop_last() =~= fields);
}

/// The pages of the broker and the webhook are drawn where there is room for them: the line at the
/// top says how the switches stand, or how the webhook does, and the help stands in its own row.
pub proof fn law_pages_say_how_things_stand(app: crate::tui::AppView, inner: Area)
    ensures
        mqtt_page_view(app, inner) is Some <==> inner.width > 0 && inner.height > 0,
        webhook_page_view(app, inner) is Some <==> inner.width > 0 && inner.height > 0,
        mqtt_page_view(app, inner) is Some ==> {
            let page = mqtt_page_view(app, inner)->0;
            &&& page.header == "Enabled: "@ + switch_word(app.config.mqtt.enabled) + "   TLS: "@
                + switch_word(app.config.mqtt.tls) + "   QoS: "@ + crate::text::decimal(
                app.config.mqtt.qos as nat,
            ) + "   Retain: "@ + switch_word(app.config.mqtt.retain)
            &&& page.fields == on_page(mqtt_fields(app, inner))
            &&& inner.y + inner.height <= u16::MAX ==> (page.help is Some <==> inner.height > 8)
        },
        webhook_page_view(app, inner) is Some ==> {
            let page = webhook_page_view(app, inner)->0;
            &&& app.config.webhook.enabled ==> page.header == "Enabled: "@ + "yes"@
                + "   Status: "@ + app.state.webhook.detail
            &&& !app.config.webhook.enabled ==> page.header == "Enabled: "@ + "no"@
                + "   Status: "@ + "disabled"@
            &&& page.fields == on_page(webhook_fields(app, inner))
            &&& inner.y + inner.height <= u16::MAX ==> (page.help is Some <==> inner.height > 5)
        },
{
}

/// What stands at the bottom is what is said, and only while nothing is said which keys there are.
pub proof fn law_the_bottom_says_what_is_said(message: Seq<char>)
    ensures
        message.len() > 0 ==> footer_text(message) == message,
        message.len() == 0 ==> footer_text(message) == "1–5/←→ tabs  s save  q quit"@,
{
}

/// The page of the verification warns exactly while the fallback is on.
pub proof fn law_the_fallback_is_warned_of(publish_unverified: bool)
    ensures
        verification_view(true)[0]
            == "UNSAFE FALLBACK: unverified metadata may be published and can expose private names."@,
        verification_view(false)[0]
            == "Privacy mode: only known MusicBrainz title-and-artist pairs are published."@,
        verification_view(publish_unverified).len() == 8,
        forall|i: int|
            1 <= i < 8 ==> #[trigger] verification_view(true)[i] == verification_view(false)[i],
{
}

/// The cover stands beside what is said of the track from seventy columns on, and above it where
/// there are fewer.
pub proof fn law_covers_stand_beside_where_there_is_room(page: Area)
    ensures
        page.width >= 70 ==> now_playing_split(page) == parts_split(page, Side::Beside, 40, 60),
        page.width < 70 ==> now_playing_split(page) == parts_split(page, Side::Below, 45, 55),
{
}

/// The cursor stands as many columns behind the beginning of its area as characters are shown in
/// front of it, as long as that is inside.
pub proof fn law_the_cursor_stands_behind_what_is_shown(area: Area, column: nat, scroll: nat)
    requires
        scroll <= column,
        column - scroll < area.width,
        area.x + area.width <= u16::MAX,
    ensures
        cursor_cell(area, column, scroll).0 == area.x + (column - scroll),
        cursor_cell(area, column, scroll).1 == area.y,
{
}

/// Views show every field as it is.
pub proof fn law_views_show_every_field(field: FieldDrawing, page: Page)
    ensures
        field@.label_area == field.label_area && field@.label == field.label@ && field@.value_area
            == field.value_area && field@.value == field.value@ && field@.scroll == field.scroll
            && field@.selected == field.selected && field@.cursor == field.cursor,
        page@.header_area == page.header_area && page@.header == page.header@,
        page@.fields.len() == page.fields@.len(),
        forall|i: int|
            0 <= i < page.fields@.len() ==> #[trigger] page@.fields[i] == page.fields@[i]@,
        page.help is Some <==> page@.help is Some,
{
}

/// Lines, rows and drawings are shown one by one, in their order.
pub proof fn law_contents_are_shown_one_by_one(
    lines: Seq<(String, String)>,
    rows: Seq<(bool, String)>,
    fields: Seq<FieldDrawing>,
    at: int,
)
    ensures
        line_views(lines).len() == lines.len(),
        0 <= at < lines.len() ==> line_views(lines)[at] == (lines[at].0@, lines[at].1@),
        row_views(rows).len() == rows.len(),
        0 <= at < rows.len() ==> row_views(rows)[at] == (rows[at].0, rows[at].1@),
        drawn(fields).len() == fields.len(),
        0 <= at < fields.len() ==> drawn(fields)[at] == fields[at]@,
{
}

/// The help on a page names its keys, and stands in the row meant for it over the whole width.
pub proof fn law_pages_help(app: crate::tui::AppView, inner: Area)
    requires
        inner.x + inner.width <= u16::MAX,
        inner.y + inner.height <= u16::MAX,
        inner.height > 8,
        inner.width > 0,
    ensures
        ({
            let broker = mqtt_page_view(app, inner)->0;
            let hook = webhook_page_view(app, inner)->0;
            let row = |y: int| Area { x: inner.x, y: y as u16, width: inner.width, height: 1 };
            &&& broker.help == Some(
                (
                    row(inner.y + 8),
                    "↑/↓ field  Enter edit  e enable  l TLS  o QoS  r retain  c test"@,
                ),
            )
            &&& hook.help == Some(
                (
                    row(inner.y + 5),
                    "↑/↓ field  Enter edit  e enable  c send diagnostic test POST"@,
                ),
            )
            &&& broker.header_area == row(inner.y as int)
            &&& hook.header_area == row(inner.y as int)
        }),
{
}

/// The cursor of a secret is scrolled into view: it never stands further than the last column but
/// one of what is seen.
pub proof fn law_secrets_scroll_with_their_cursor(line: crate::editor::LineView, width: nat)
    ensures
        edited_place(line, true, width).0 == line.cursor,
        line.cursor <= width ==> edited_place(line, true, width).1 == 0,
        line.cursor > width ==> edited_place(line, true, width).0 - edited_place(
            line,
            true,
            width,
        ).1 == width,
        edited_place(line, false, width).0 == crate::editor::cursor_column(line.text, line.cursor),
        edited_place(line, false, width).1 == crate::editor::scroll_columns(
            line.text,
            line.cursor,
            width,
        ),
{
}

/// Where there is no player the list says so, and nothing in it is selected.
pub proof fn law_a_list_without_players_says_so(app: crate::tui::AppView)
    requires
        app.state.players.len() == 0,
    ensures
        players_view(app).len() == 1,
        !players_view(app)[0].0,
        players_view(app)[0].1 == "No MPRIS players discovered in this D-Bus session."@,
{
}

/// One column of a value is kept for the cursor, and a border takes one cell on each side.
pub proof fn law_room_is_kept_for_cursor_and_border(inner: Area, index: int, area: Area)
    requires
        area.x + area.width <= u16::MAX,
        area.y + area.height <= u16::MAX,
        area.width >= 2,
        area.height >= 2,
    ensures
        value_area(inner, index).width > 0 ==> visible_width(inner, index) + 1 == value_area(
            inner,
            index,
        ).width,
        value_area(inner, index).width == 0 ==> visible_width(inner, index) == 0,
        inside(area).x == area.x + 1 && inside(area).y == area.y + 1,
        inside(area).x + inside(area).width + 1 == area.x + area.width,
        inside(area).y + inside(area).height + 1 == area.y + area.height,
{
}

} // verus!
