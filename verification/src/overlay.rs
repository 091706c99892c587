//! The boxes that are drawn over a session: the commands to choose from, and the request that
//! waits for an answer.
use vstd::prelude::*;

use crate::claude::{
    OptionView, PermissionRequest, QuestionOption, QuestionView, RequestView, UserQuestion,
};
use crate::cursor;
use crate::cursor::bytes_in;
use crate::screen;
use crate::screen::{Cell, Rect, Role, Stroke};
use crate::session::{ClaudeSession, SessionView};
use crate::slash;
use crate::slash::filtered_slash_commands;
use crate::text;
use crate::text::{cat2, cat3, chars_of, decimal_of, lines_of, truncate_chars, word};

verus! {

// ── Layers ──

/// Something that is drawn over what was there before.
#[verifier::ext_equal]
pub enum Layer {
    /// A background for the cells of a row from `from` up to `to`.
    Tint { from: int, to: int, y: int, bg: Role },
    /// A text that begins in a cell.
    Run { x: int, y: int, text: Seq<char>, fg: Role },
}

impl Layer {
    /// A cell with this layer over it.
    pub open spec fn over(self, x: int, y: int, under: Cell) -> Cell {
        match self {
            Layer::Tint { from, to, y: row, bg } => if y == row && from <= x < to {
                Cell { bg: Some(bg), ..under }
            } else {
                under
            },
            Layer::Run { x: from, y: row, text, fg } => if y == row && from <= x < from
                + text.len() {
                ink(text[x - from], fg)
            } else {
                under
            },
        }
    }
}

/// A cell with layers over it, the last on top.
pub open spec fn layered(layers: Seq<Layer>, x: int, y: int, under: Cell) -> Cell
    decreases layers.len(),
{
    if layers.len() == 0 {
        under
    } else {
        layers.last().over(x, y, layered(layers.drop_last(), x, y, under))
    }
}

/// A character on the background of a box.
pub open spec fn ink(ch: char, fg: Role) -> Cell {
    Cell { ch: Some(ch), fg: Some(fg), bg: Some(Role::BgSecondary) }
}

/// A text in a row, of which no more than `max` characters are written.
pub open spec fn run(x: int, y: int, s: Seq<char>, fg: Role, max: int) -> Layer {
    Layer::Run {
        x,
        y,
        text: text::first_chars(
            s,
            if max > 0 {
                max as nat
            } else {
                0
            },
        ),
        fg,
    }
}

/// A box with a border and a title in it: what it makes of a cell. The border at the bottom and
/// at the sides is drawn over the title.
pub open spec fn box_cell(
    r: Rect,
    border: Role,
    title_x: int,
    title: Seq<char>,
    x: int,
    y: int,
) -> Cell {
    let right = r.x + r.width - 1;
    let bottom = r.y + r.height - 1;
    if r.y < y < bottom && (x == r.x || x == right) {
        ink('┃', border)
    } else if y == bottom && r.x <= x <= right {
        ink(
            if x == r.x {
                '┗'
            } else if x == right {
                '┛'
            } else {
                '━'
            },
            border,
        )
    } else if y == r.y && title_x <= x < title_x + title.len() {
        ink(title[x - title_x], border)
    } else if y == r.y && r.x <= x <= right {
        ink(
            if x == r.x {
                '┏'
            } else if x == right {
                '┓'
            } else {
                '━'
            },
            border,
        )
    } else if r.holds(x, y) {
        ink(' ', Role::TextPrimary)
    } else {
        screen::untouched()
    }
}

// ── The strokes of layers ──

/// Strokes that are put on one after the other.
pub struct Canvas {
    pub strokes: Vec<Stroke>,
}

impl Canvas {
    /// What the canvas makes of a cell.
    pub open spec fn at(self, x: int, y: int) -> Cell {
        screen::painted(self.strokes@, x, y)
    }

    fn new() -> (r: Canvas)
        ensures
            forall|x: int, y: int| #[trigger] r.at(x, y) == screen::untouched(),
    {
        Canvas { strokes: Vec::new() }
    }

    fn put(&mut self, x: u16, y: u16, ch: char, fg: Role)
        ensures
            forall|cx: int, cy: int| #[trigger]
                final(self).at(cx, cy) == (if cx == x && cy == y {
                    ink(ch, fg)
                } else {
                    old(self).at(cx, cy)
                }),
    {
        let s = Stroke { x, y, ch: Some(ch), fg: Some(fg), bg: Some(Role::BgSecondary) };
        self.strokes.push(s);
        assert(self.strokes@.drop_last() == old(self).strokes@);
    }

    fn tint(&mut self, from: u16, to: u16, y: u16, bg: Role)
        ensures
            forall|cx: int, cy: int| #[trigger]
                final(self).at(cx, cy) == (Layer::Tint {
                    from: from as int,
                    to: to as int,
                    y: y as int,
                    bg,
                }).over(cx, cy, old(self).at(cx, cy)),
    {
        let mut x: u16 = from;
        while x < to
            invariant
                from <= to ==> from <= x <= to,
                from > to ==> x == from,
                forall|cx: int, cy: int| #[trigger]
                    self.at(cx, cy) == (Layer::Tint {
                        from: from as int,
                        to: x as int,
                        y: y as int,
                        bg,
                    }).over(cx, cy, old(self).at(cx, cy)),
            decreases to - x,
        {
            let ghost before = *self;
            let s = Stroke { x, y, ch: None, fg: None, bg: Some(bg) };
            self.strokes.push(s);
            assert(self.strokes@.drop_last() == before.strokes@);
            assert forall|cx: int, cy: int| #[trigger]
                self.at(cx, cy) == (Layer::Tint {
                    from: from as int,
                    to: x + 1,
                    y: y as int,
                    bg,
                }).over(cx, cy, old(self).at(cx, cy)) by {
                assert(before.at(cx, cy) == (Layer::Tint {
                    from: from as int,
                    to: x as int,
                    y: y as int,
                    bg,
                }).over(cx, cy, old(self).at(cx, cy)));
            }
            x += 1;
        }
        assert forall|cx: int, cy: int| #[trigger]
            self.at(cx, cy) == (Layer::Tint {
                from: from as int,
                to: to as int,
                y: y as int,
                bg,
            }).over(cx, cy, old(self).at(cx, cy)) by {
            assert(self.at(cx, cy) == (Layer::Tint {
                from: from as int,
                to: x as int,
                y: y as int,
                bg,
            }).over(cx, cy, old(self).at(cx, cy)));
        }
    }

    fn write(&mut self, x: usize, y: u16, s: &str, fg: Role, max: usize)
        requires
            max == 0 || x + max <= u16::MAX,
        ensures
            forall|cx: int, cy: int| #[trigger]
                final(self).at(cx, cy) == run(x as int, y as int, s@, fg, max as int).over(
                    cx,
                    cy,
                    old(self).at(cx, cy),
                ),
    {
        let v = chars_of(s);
        let n: usize = if v.len() < max {
            v.len()
        } else {
            max
        };
        let ghost shown = text::first_chars(s@, max as nat);
        assert(shown.len() == n);
        let mut i: usize = 0;
        while i < n
            invariant
                i <= n <= v@.len(),
                n <= max,
                max == 0 || x + max <= u16::MAX,
                v@ == s@,
                shown == text::first_chars(s@, max as nat),
                shown.len() == n,
                forall|cx: int, cy: int| #[trigger]
                    self.at(cx, cy) == (Layer::Run {
                        x: x as int,
                        y: y as int,
                        text: shown.take(i as int),
                        fg,
                    }).over(cx, cy, old(self).at(cx, cy)),
            decreases n - i,
        {
            let ghost before = *self;
            assert(v@[i as int] == shown[i as int]);
            self.put((x + i) as u16, y, v[i], fg);
            assert forall|cx: int, cy: int| #[trigger]
                self.at(cx, cy) == (Layer::Run {
                    x: x as int,
                    y: y as int,
                    text: shown.take(i + 1),
                    fg,
                }).over(cx, cy, old(self).at(cx, cy)) by {
                assert(before.at(cx, cy) == (Layer::Run {
                    x: x as int,
                    y: y as int,
                    text: shown.take(i as int),
                    fg,
                }).over(cx, cy, old(self).at(cx, cy)));
            }
            i += 1;
        }
        assert(shown.take(n as int) == shown);
    }
}

impl Canvas {
    /// The cells of a rectangle, empty.
    fn clear(&mut self, r: Rect)
        requires
            r.fits(),
        ensures
            forall|x: int, y: int| #[trigger]
                final(self).at(x, y) == (if r.holds(x, y) {
                    ink(' ', Role::TextPrimary)
                } else {
                    old(self).at(x, y)
                }),
    {
        let right: u16 = r.x + r.width;
        let bottom: u16 = r.y + r.height;
        let mut row: u16 = r.y;
        while row < bottom
            invariant
                r.fits(),
                r.y <= row <= bottom,
                right == r.x + r.width,
                bottom == r.y + r.height,
                forall|x: int, y: int| #[trigger]
                    self.at(x, y) == (if r.holds(x, y) && y < row {
                        ink(' ', Role::TextPrimary)
                    } else {
                        old(self).at(x, y)
                    }),
            decreases bottom - row,
        {
            let mut col: u16 = r.x;
            while col < right
                invariant
                    r.fits(),
                    r.x <= col <= right,
                    r.y <= row < bottom,
                    right == r.x + r.width,
                    bottom == r.y + r.height,
                    forall|x: int, y: int| #[trigger]
                        self.at(x, y) == (if r.holds(x, y) && (y < row || (y == row && x < col)) {
                            ink(' ', Role::TextPrimary)
                        } else {
                            old(self).at(x, y)
                        }),
                decreases right - col,
            {
                self.put(col, row, ' ', Role::TextPrimary);
                col += 1;
            }
            row += 1;
        }
    }

    /// A horizontal line of a border, with its corners.
    fn edge(&mut self, x: u16, right: u16, y: u16, left_ch: char, right_ch: char, fg: Role)
        requires
            x < right,
        ensures
            forall|cx: int, cy: int| #[trigger]
                final(self).at(cx, cy) == (if cy == y && x <= cx <= right {
                    ink(
                        if cx == x {
                            left_ch
                        } else if cx == right {
                            right_ch
                        } else {
                            '━'
                        },
                        fg,
                    )
                } else {
                    old(self).at(cx, cy)
                }),
    {
        self.put(x, y, left_ch, fg);
        self.put(right, y, right_ch, fg);
        let ghost corners = *self;
        let mut col: u16 = x + 1;
        while col < right
            invariant
                x < col <= right,
                forall|cx: int, cy: int| #[trigger]
                    self.at(cx, cy) == (if cy == y && x < cx < col {
                        ink('━', fg)
                    } else {
                        corners.at(cx, cy)
                    }),
            decreases right - col,
        {
            self.put(col, y, '━', fg);
            col += 1;
        }
    }

    /// A box with a border and a title.
    fn frame(&mut self, r: Rect, border: Role, title_x: u16, title: &str)
        requires
            r.fits(),
            r.width >= 2,
            r.y + r.height >= 1,
            title_x + title@.len() <= u16::MAX,
            forall|x: int, y: int| #[trigger] old(self).at(x, y) == screen::untouched(),
        ensures
            forall|x: int, y: int| #[trigger]
                final(self).at(x, y) == box_cell(r, border, title_x as int, title@, x, y),
    {
        let right: u16 = r.x + (r.width - 1);
        let bottom: u16 = (r.y as u32 + r.height as u32 - 1) as u16;
        self.clear(r);
        self.edge(r.x, right, r.y, '┏', '┓', border);
        let ghost top = *self;
        let n: usize = title.unicode_len();
        self.write(title_x as usize, r.y, title, border, n);
        assert forall|x: int, y: int| #[trigger]
            self.at(x, y) == (if y == r.y && title_x <= x < title_x + title@.len() {
                ink(title@[x - title_x], border)
            } else {
                top.at(x, y)
            }) by {
            assert(text::first_chars(title@, n as nat) == title@);
        }
        self.edge(r.x, right, bottom, '┗', '┛', border);
        let ghost edges = *self;
        let mut row: u32 = r.y as u32 + 1;
        while row < bottom as u32
            invariant
                r.y < row,
                bottom == r.y + r.height - 1,
                right == r.x + r.width - 1,
                row <= bottom || row == r.y + 1,
                forall|x: int, y: int| #[trigger]
                    self.at(x, y) == (if r.y < y < row && y < bottom && (x == r.x || x == right) {
                        ink('┃', border)
                    } else {
                        edges.at(x, y)
                    }),
            decreases bottom - row,
        {
            self.put(r.x, row as u16, '┃', border);
            self.put(right, row as u16, '┃', border);
            row += 1;
        }
        assert forall|x: int, y: int| #[trigger]
            self.at(x, y) == box_cell(r, border, title_x as int, title@, x, y) by {
            assert(self.at(x, y) == (if r.y < y < row && y < bottom && (x == r.x || x == right) {
                ink('┃', border)
            } else {
                edges.at(x, y)
            }));
        }
    }
}

/// A box with what stands in it.
#[verifier::ext_equal]
pub struct Picture {
    pub area: Rect,
    pub border: Role,
    pub title_x: int,
    pub title: Seq<char>,
    pub layers: Seq<Layer>,
}

impl Picture {
    /// What the picture makes of a cell.
    pub open spec fn cell(self, x: int, y: int) -> Cell {
        layered(
            self.layers,
            x,
            y,
            box_cell(self.area, self.border, self.title_x, self.title, x, y),
        )
    }

    /// The picture with one layer more on top.
    pub open spec fn with(self, layer: Layer) -> Picture {
        Picture { layers: self.layers.push(layer), ..self }
    }

    pub open spec fn with_all(self, layers: Seq<Layer>) -> Picture {
        Picture { layers: self.layers + layers, ..self }
    }
}

/// Whether strokes make of every cell what a picture does.
pub open spec fn draws(strokes: Seq<Stroke>, picture: Picture) -> bool {
    forall|x: int, y: int| #[trigger] screen::painted(strokes, x, y) == picture.cell(x, y)
}

proof fn lemma_layer_more(before: Canvas, after: Canvas, picture: Picture, layer: Layer)
    requires
        draws(before.strokes@, picture),
        forall|x: int, y: int| #[trigger] after.at(x, y) == layer.over(x, y, before.at(x, y)),
    ensures
        draws(after.strokes@, picture.with(layer)),
{
    assert(picture.with(layer).layers.drop_last() == picture.layers);
    assert forall|x: int, y: int| #[trigger]
        screen::painted(after.strokes@, x, y) == picture.with(layer).cell(x, y) by {
        assert(after.at(x, y) == layer.over(x, y, before.at(x, y)));
        assert(screen::painted(before.strokes@, x, y) == picture.cell(x, y));
    }
}

impl Canvas {
    /// A box with nothing in it yet.
    fn of_box(r: Rect, border: Role, title_x: u16, title: &str) -> (canvas: Canvas)
        requires
            r.fits(),
            r.width >= 2,
            r.y + r.height >= 1,
            title_x + title@.len() <= u16::MAX,
        ensures
            draws(
                canvas.strokes@,
                Picture {
                    area: r,
                    border,
                    title_x: title_x as int,
                    title: title@,
                    layers: Seq::empty(),
                },
            ),
    {
        let mut canvas = Canvas::new();
        canvas.frame(r, border, title_x, title);
        assert forall|x: int, y: int| #[trigger]
            screen::painted(canvas.strokes@, x, y) == (Picture {
                area: r,
                border,
                title_x: title_x as int,
                title: title@,
                layers: Seq::empty(),
            }).cell(x, y) by {
            assert(canvas.at(x, y) == box_cell(r, border, title_x as int, title@, x, y));
        }
        canvas
    }
}

// ── The commands to choose from ──

/// Where the commands are shown, where there are any and there is room above the input.
pub open spec fn popup_area(input: Rect, count: int) -> Option<Rect> {
    let width = if input.width >= 44 {
        44
    } else if input.width >= 20 {
        input.width as int
    } else {
        20
    };
    let height = if count + 2 <= input.y {
        count + 2
    } else {
        input.y as int
    };
    if count == 0 || height < 3 {
        None
    } else {
        Some(
            Rect {
                x: input.x,
                y: (input.y - height) as u16,
                width: width as u16,
                height: height as u16,
            },
        )
    }
}

/// The layers of a command: its name, and behind it what it does. The row of the selected one is
/// tinted.
pub open spec fn command_layers(
    r: Rect,
    command: (Seq<char>, Seq<char>),
    i: int,
    selected: bool,
) -> Seq<Layer> {
    let row = r.y + 1 + i;
    let x = r.x + 2;
    let w = r.width - 4;
    let n = command.0.len();
    let texts = seq![
        run(
            x,
            row,
            command.0,
            if selected {
                Role::Green
            } else {
                Role::Cyan
            },
            w,
        ),
        run(x + n + 1, row, command.1, Role::TextMuted, w - (n + 1)),
    ];
    if selected {
        seq![
            Layer::Tint { from: r.x + 1, to: r.x + r.width - 1, y: row, bg: Role::BgPrimary },
        ] + texts
    } else {
        texts
    }
}

/// The layers of the first `k` commands.
pub open spec fn popup_layers(
    r: Rect,
    commands: Seq<(Seq<char>, Seq<char>)>,
    selected: int,
    k: int,
) -> Seq<Layer>
    decreases k,
{
    if k <= 0 {
        Seq::empty()
    } else {
        popup_layers(r, commands, selected, k - 1) + command_layers(
            r,
            commands[k - 1],
            k - 1,
            k - 1 == selected,
        )
    }
}

impl SessionView {
    /// The commands that the popup shows.
    pub open spec fn popup_commands(self) -> Seq<(Seq<char>, Seq<char>)> {
        slash::matching(text::first_word(self.input_buf), self.assistant.name)
    }

    /// The popup above an input, where it is drawn at all. Commands that find no room are left
    /// out.
    pub open spec fn popup(self, input: Rect) -> Option<Picture> {
        let commands = self.popup_commands();
        match popup_area(input, commands.len() as int) {
            None => None,
            Some(r) => Some(
                Picture {
                    area: r,
                    border: Role::Cyan,
                    title_x: r.x as int,
                    title: Seq::empty(),
                    layers: popup_layers(
                        r,
                        commands,
                        self.slash_popup_selected,
                        if commands.len() <= r.height - 2 {
                            commands.len() as int
                        } else {
                            r.height - 2
                        },
                    ),
                },
            ),
        }
    }
}

impl SessionView {
    /// There is room in the coordinates for the box of the popup, where it is drawn.
    pub open spec fn popup_fits(self, input: Rect) -> bool {
        popup_area(input, self.popup_commands().len() as int) matches Some(r) ==> r.fits()
    }
}

/// Whether there is room in the coordinates for the popup above an input.
pub fn popup_has_room(input: Rect, session: &ClaudeSession) -> (r: bool)
    ensures
        r == session@.popup_fits(input),
{
    let commands = filtered_slash_commands(
        word(session.input_buf.as_str()),
        session.assistant.name.as_str(),
    );
    assert(slash::commands_view(commands@) == session@.popup_commands());
    assert(commands@.len() == session@.popup_commands().len());
    let width: u16 = if input.width >= 44 {
        44
    } else if input.width >= 20 {
        input.width
    } else {
        20
    };
    commands.len() == 0 || input.y < 3 || input.x <= u16::MAX - width
}

/// The popup above an input, in strokes.
pub fn render_slash_popup(input: Rect, session: &ClaudeSession) -> (r: Option<Vec<Stroke>>)
    requires
        session@.popup_fits(input),
    ensures
        match session@.popup(input) {
            Some(picture) => r is Some && draws(r->0@, picture),
            None => r is None,
        },
{
    let commands = filtered_slash_commands(
        word(session.input_buf.as_str()),
        session.assistant.name.as_str(),
    );
    let ghost table = session@.popup_commands();
    assert(slash::commands_view(commands@) == table);
    assert(commands@.len() == table.len());
    let count: usize = commands.len();
    if count == 0 {
        return None;
    }
    let popup_width: u16 = if input.width >= 44 {
        44
    } else if input.width >= 20 {
        input.width
    } else {
        20
    };
    let popup_height: u16 = if count < input.y as usize && count + 2 <= input.y as usize {
        (count + 2) as u16
    } else {
        input.y
    };
    if popup_height < 3 {
        return None;
    }
    let area = Rect {
        x: input.x,
        y: input.y - popup_height,
        width: popup_width,
        height: popup_height,
    };
    proof {
        reveal_strlit("");
        assert(""@ == Seq::<char>::empty());
    }
    let mut canvas = Canvas::of_box(area, Role::Cyan, area.x, "");
    let ghost blank = Picture {
        area,
        border: Role::Cyan,
        title_x: area.x as int,
        title: Seq::empty(),
        layers: Seq::empty(),
    };
    let room: usize = (popup_height - 2) as usize;
    let shown: usize = if count <= room {
        count
    } else {
        room
    };
    let inner_x: usize = area.x as usize + 2;
    let inner_w: usize = (popup_width - 4) as usize;
    let selected = session.slash_popup_selected;
    let mut i: usize = 0;
    assert(blank.with_all(popup_layers(area, table, selected as int, 0)) == blank);
    while i < shown
        invariant
            i <= shown <= room,
            shown <= commands@.len(),
            room == area.height - 2,
            area.fits(),
            20 <= area.width,
            inner_x == area.x + 2,
            inner_w == area.width - 4,
            slash::commands_view(commands@) == table,
            draws(
                canvas.strokes@,
                blank.with_all(popup_layers(area, table, selected as int, i as int)),
            ),
        decreases shown - i,
    {
        let name = commands[i].0;
        let desc = commands[i].1.as_str();
        assert(table[i as int] == (name@, desc@));
        let row: u16 = area.y + 1 + i as u16;
        let is_selected = i == selected;
        let ghost mut picture = blank.with_all(popup_layers(area, table, selected as int, i as int));
        let ghost start = picture;
        // Highlight selected row background
        if is_selected {
            let ghost before = canvas;
            canvas.tint(area.x + 1, area.x + (area.width - 1), row, Role::BgPrimary);
            proof {
                let layer = Layer::Tint {
                    from: area.x + 1,
                    to: area.x + area.width - 1,
                    y: row as int,
                    bg: Role::BgPrimary,
                };
                lemma_layer_more(before, canvas, picture, layer);
                picture = picture.with(layer);
            }
        }
        let name_fg = if is_selected {
            Role::Green
        } else {
            Role::Cyan
        };
        let ghost before = canvas;
        canvas.write(inner_x, row, name, name_fg, inner_w);
        let ghost layer = run(inner_x as int, row as int, name@, name_fg, inner_w as int);
        proof {
            lemma_layer_more(before, canvas, picture, layer);
            picture = picture.with(layer);
        }
        let n: usize = name.unicode_len();
        let desc_w: usize = inner_w.saturating_sub(n.saturating_add(1));
        let ghost before = canvas;
        let ghost layer = run(
            inner_x + n + 1,
            row as int,
            desc@,
            Role::TextMuted,
            inner_w - (n + 1),
        );
        if desc_w > 0 {
            canvas.write(inner_x + n + 1, row, desc, Role::TextMuted, desc_w);
        } else {
            assert forall|x: int, y: int| #[trigger]
                canvas.at(x, y) == layer.over(x, y, before.at(x, y)) by {}
        }
        proof {
            lemma_layer_more(before, canvas, picture, layer);
            picture = picture.with(layer);
            assert(picture.layers =~= start.layers + command_layers(
                area,
                table[i as int],
                i as int,
                is_selected,
            ));
            assert(picture =~= blank.with_all(
                popup_layers(area, table, selected as int, i + 1),
            ));
        }
        i += 1;
    }
    assert(blank.with_all(popup_layers(area, table, selected as int, shown as int)) =~= session@.popup(
        input,
    )->0);
    Some(canvas.strokes)
}

// ── The request that waits ──

/// How many rows a request takes without its border.
pub open spec fn request_rows(req: RequestView) -> int {
    if req.questions.len() > 0 {
        3 + req.questions[0].options.len() as int
    } else {
        let n = text::lines(req.input_preview).len();
        4 + (if n < 8 {
            n as int
        } else {
            8
        })
    }
}

/// Where a request is shown: in the middle of the tile.
pub open spec fn request_area(area: Rect, req: RequestView) -> Rect {
    let width = if area.width >= 60 {
        60
    } else if area.width >= 30 {
        area.width as int
    } else {
        30
    };
    let wanted = 2 + request_rows(req);
    let height = if wanted <= area.height {
        wanted
    } else {
        area.height as int
    };
    Rect {
        x: (area.x + (if area.width >= width {
            (area.width - width) / 2
        } else {
            0
        })) as u16,
        y: (area.y + (area.height - height) / 2) as u16,
        width: width as u16,
        height: height as u16,
    }
}

/// What stands above a request; `assistant` is the name that is shown.
pub open spec fn request_title(req: RequestView, assistant: Seq<char>) -> Seq<char> {
    if req.questions.len() > 0 {
        " "@ + assistant + " asks "@
    } else {
        " Permission Required "@
    }
}

/// The layers of the options from number `i` on; the next free row is `row`.
pub open spec fn option_layers(r: Rect, options: Seq<OptionView>, i: int, row: int) -> Seq<Layer>
    decreases options.len() - i,
{
    let x = r.x + 2;
    let w = r.width - 4;
    if i < 0 || i >= options.len() || row >= r.y + r.height - 2 {
        Seq::empty()
    } else {
        let opt = options[i];
        let num = "["@ + text::decimal((i + 1) as nat) + "] "@;
        let head = seq![
            run(x, row, num, Role::Green, w),
            run(x + num.len(), row, opt.label, Role::Cyan, w - num.len()),
        ];
        if opt.description.len() > 0 && row + 1 < r.y + r.height - 2 {
            head.push(run(x, row + 1, "    "@ + opt.description, Role::TextMuted, w))
                + option_layers(r, options, i + 1, row + 2)
        } else {
            head + option_layers(r, options, i + 1, row + 1)
        }
    }
}

/// The layers of a question: the first one that is asked, its options, and the keys.
pub open spec fn question_layers(r: Rect, q: QuestionView) -> Seq<Layer> {
    let x = r.x + 2;
    let w = r.width - 4;
    let hint = r.y + r.height - 2;
    seq![run(x, r.y + 1, q.question, Role::TextPrimary, w)] + option_layers(
        r,
        q.options,
        0,
        r.y + 3,
    ) + seq![
        run(x, hint, "1-9:choose "@, Role::TextMuted, w),
        run(x + 11, hint, "[o]other "@, Role::Cyan, w - 11),
        run(x + 20, hint, "[n/Esc]no"@, Role::Red, w - 20),
    ]
}

/// The layers of the first `k` lines of an input.
pub open spec fn preview_layers(r: Rect, lines: Seq<Seq<char>>, k: int) -> Seq<Layer>
    decreases k,
{
    if k <= 0 {
        Seq::empty()
    } else {
        preview_layers(r, lines, k - 1).push(
            run(r.x + 2, r.y + 2 + k, "  "@ + lines[k - 1], Role::TextSecondary, r.width - 4),
        )
    }
}

/// How many lines of an input are shown: at most eight, and no more than there is room for.
pub open spec fn preview_count(r: Rect, lines: Seq<Seq<char>>) -> int {
    let n = if lines.len() < 8 {
        lines.len() as int
    } else {
        8
    };
    let room = if r.height >= 5 {
        r.height - 5
    } else {
        0
    };
    if n <= room {
        n
    } else {
        room
    }
}

/// The layers of a request for a tool: its name, its input, and the keys.
pub open spec fn tool_layers(r: Rect, req: RequestView) -> Seq<Layer> {
    let x = r.x + 2;
    let w = r.width - 4;
    let hint = r.y + r.height - 2;
    let lines = text::lines(req.input_preview);
    let from = x + (if w >= 30 {
        (w - 30) / 2
    } else {
        0
    });
    let edge = r.x + r.width - 1;
    seq![
        run(x, r.y + 1, "Tool: "@ + req.tool_name, Role::Orange, w),
        run(x, r.y + 2, "Input:"@, Role::TextSecondary, w),
    ] + preview_layers(r, lines, preview_count(r, lines)) + seq![
        run(from, hint, "[y/Enter]"@, Role::Green, edge - from),
        run(from + 9, hint, " Allow   "@, Role::TextPrimary, edge - (from + 9)),
        run(from + 18, hint, "[n/Esc]"@, Role::Red, edge - (from + 18)),
        run(from + 25, hint, " Deny"@, Role::TextPrimary, edge - (from + 25)),
    ]
}

/// How far the title of a box stands from its corner, so that it is in the middle. It is measured
/// in bytes.
pub open spec fn title_gap(r: Rect, title: Seq<char>) -> int {
    if r.width >= 2 + cursor::byte_len(title) {
        (r.width - 2 - cursor::byte_len(title)) / 2
    } else {
        0
    }
}

/// The picture of a request that waits. Of a title that is too long the end is cut off.
pub open spec fn request_picture(area: Rect, req: RequestView, assistant: Seq<char>) -> Picture {
    let r = request_area(area, req);
    let title = request_title(req, assistant);
    let gap = title_gap(r, title);
    Picture {
        area: r,
        border: if req.questions.len() > 0 {
            Role::Cyan
        } else {
            Role::Yellow
        },
        title_x: r.x + 1 + gap,
        title: text::first_chars(title, (r.width - 2 - gap) as nat),
        layers: if req.questions.len() > 0 {
            question_layers(r, req.questions[0])
        } else {
            tool_layers(r, req)
        },
    }
}

/// There is room for the rows and the title of a request in the coordinates, and its keys are on
/// the screen.
pub open spec fn request_fits(area: Rect, req: RequestView, assistant: Seq<char>) -> bool {
    &&& area.fits()
    &&& request_rows(req) + 2 <= u16::MAX
    &&& request_area(area, req).fits()
    &&& request_area(area, req).y + 3 <= u16::MAX
    &&& request_area(area, req).y + request_area(area, req).height >= 2
    &&& 2 + cursor::byte_len(request_title(req, assistant)) <= u16::MAX
}

impl Canvas {
    /// A text over a picture. Where there is no room for it, nothing is written.
    fn write_over(
        &mut self,
        Ghost(picture): Ghost<Picture>,
        x: usize,
        y: u16,
        s: &str,
        fg: Role,
        max: usize,
    )
        requires
            max == 0 || x + max <= u16::MAX,
            draws(old(self).strokes@, picture),
        ensures
            draws(
                final(self).strokes@,
                picture.with(run(x as int, y as int, s@, fg, max as int)),
            ),
    {
        let ghost before = *self;
        self.write(x, y, s, fg, max);
        proof {
            lemma_layer_more(
                before,
                *self,
                picture,
                run(x as int, y as int, s@, fg, max as int),
            );
        }
    }
}

proof fn lemma_with_all(picture: Picture, layers: Seq<Layer>, more: Layer)
    ensures
        picture.with_all(layers).with(more) == picture.with_all(layers.push(more)),
        picture.with_all(Seq::empty()) == picture,
{
    assert(picture.with_all(layers).with(more).layers =~= picture.with_all(
        layers.push(more),
    ).layers);
    assert(picture.with_all(Seq::empty()).layers =~= picture.layers);
}

/// The options of a question, in strokes.
fn draw_options(
    canvas: &mut Canvas,
    Ghost(picture): Ghost<Picture>,
    r: Rect,
    options: &Vec<QuestionOption>,
)
    requires
        r.fits(),
        r.width >= 30,
        r.y + 3 <= u16::MAX,
        r.y + r.height >= 2,
        draws(old(canvas).strokes@, picture),
    ensures
        draws(
            final(canvas).strokes@,
            picture.with_all(option_layers(r, options.deep_view(), 0, r.y + 3)),
        ),
{
    let ghost all = options.deep_view();
    let ghost want = option_layers(r, all, 0, r.y + 3);
    let ghost mut done: Seq<Layer> = Seq::empty();
    let x: usize = r.x as usize + 2;
    let w: usize = r.width as usize - 4;
    let limit: u32 = r.y as u32 + r.height as u32 - 2;
    let mut i: usize = 0;
    let mut row: u32 = r.y as u32 + 3;
    proof {
        lemma_with_all(picture, done, Layer::Tint { from: 0, to: 0, y: 0, bg: Role::Black });
        assert(done + want == want);
    }
    while i < options.len() && row < limit
        invariant
            i <= options@.len(),
            r.fits(),
            r.width >= 30,
            x == r.x + 2,
            w == r.width - 4,
            limit == r.y + r.height - 2,
            row <= u16::MAX + 2,
            all == options.deep_view(),
            want == option_layers(r, all, 0, r.y + 3),
            done + option_layers(r, all, i as int, row as int) == want,
            draws(canvas.strokes@, picture.with_all(done)),
        decreases options@.len() - i,
    {
        let opt = &options[i];
        assert(all[i as int] == opt.deep_view());
        let number = decimal_of(i as u64 + 1);
        let num = cat3("[", number.as_str(), "] ");
        let n: usize = num.as_str().unicode_len();
        let ghost start = done;
        canvas.write_over(
            Ghost(picture.with_all(done)),
            x,
            row as u16,
            num.as_str(),
            Role::Green,
            w,
        );
        proof {
            let layer = run(x as int, row as int, num@, Role::Green, w as int);
            lemma_with_all(picture, done, layer);
            done = done.push(layer);
        }
        let left: usize = w.saturating_sub(n);
        let at: usize = if left > 0 {
            x + n
        } else {
            x
        };
        let ghost layer = run(x + n, row as int, opt.label@, Role::Cyan, w - n);
        if left > 0 {
            canvas.write_over(
                Ghost(picture.with_all(done)),
                at,
                row as u16,
                opt.label.as_str(),
                Role::Cyan,
                left,
            );
        } else {
            let ghost before = *canvas;
            assert forall|cx: int, cy: int| #[trigger]
                canvas.at(cx, cy) == layer.over(cx, cy, before.at(cx, cy)) by {}
            proof {
                lemma_layer_more(before, *canvas, picture.with_all(done), layer);
            }
        }
        proof {
            lemma_with_all(picture, done, layer);
            done = done.push(layer);
        }
        let ghost head = done;
        row += 1;
        // Show description on next line if there's room
        if !opt.description.as_str().is_empty() && row < limit {
            let desc = cat2("    ", opt.description.as_str());
            canvas.write_over(
                Ghost(picture.with_all(done)),
                x,
                row as u16,
                desc.as_str(),
                Role::TextMuted,
                w,
            );
            proof {
                let layer = run(x as int, row as int, desc@, Role::TextMuted, w as int);
                lemma_with_all(picture, done, layer);
                done = done.push(layer);
            }
            row += 1;
        }
        i += 1;
        proof {
            assert(done + option_layers(r, all, i as int, row as int) =~= start + option_layers(
                r,
                all,
                i - 1,
                if done.len() == head.len() {
                    row - 1
                } else {
                    row - 2
                },
            ));
        }
    }
    proof {
        assert(done + Seq::<Layer>::empty() == done);
    }
}

/// The first lines of an input, in strokes.
fn draw_preview(
    canvas: &mut Canvas,
    Ghost(picture): Ghost<Picture>,
    r: Rect,
    lines: &Vec<String>,
)
    requires
        r.fits(),
        r.width >= 30,
        draws(old(canvas).strokes@, picture),
    ensures
        ({
            let all = text::texts(lines@);
            draws(
                final(canvas).strokes@,
                picture.with_all(preview_layers(r, all, preview_count(r, all))),
            )
        }),
{
    let ghost all = text::texts(lines@);
    let n: usize = if lines.len() < 8 {
        lines.len()
    } else {
        8
    };
    let room: usize = r.height.saturating_sub(5) as usize;
    let count: usize = if n <= room {
        n
    } else {
        room
    };
    let x: usize = r.x as usize + 2;
    let w: usize = r.width as usize - 4;
    let mut k: usize = 0;
    proof {
        lemma_with_all(
            picture,
            Seq::empty(),
            Layer::Tint { from: 0, to: 0, y: 0, bg: Role::Black },
        );
    }
    while k < count
        invariant
            k <= count <= lines@.len(),
            count <= room,
            room == (if r.height >= 5 {
                r.height - 5
            } else {
                0
            }),
            r.fits(),
            r.width >= 30,
            x == r.x + 2,
            w == r.width - 4,
            all == text::texts(lines@),
            draws(canvas.strokes@, picture.with_all(preview_layers(r, all, k as int))),
        decreases count - k,
    {
        assert(all[k as int] == lines@[k as int]@);
        let display = cat2("  ", lines[k].as_str());
        let row: u16 = r.y + 3 + k as u16;
        let ghost done = preview_layers(r, all, k as int);
        canvas.write_over(
            Ghost(picture.with_all(done)),
            x,
            row,
            display.as_str(),
            Role::TextSecondary,
            w,
        );
        proof {
            lemma_with_all(
                picture,
                done,
                run(x as int, row as int, display@, Role::TextSecondary, w as int),
            );
        }
        k += 1;
    }
}

/// A question, in strokes over its box.
fn draw_question(
    canvas: &mut Canvas,
    Ghost(picture): Ghost<Picture>,
    r: Rect,
    q: &UserQuestion,
)
    requires
        r.fits(),
        r.width >= 30,
        r.y + 3 <= u16::MAX,
        r.y + r.height >= 2,
        draws(old(canvas).strokes@, picture),
    ensures
        draws(final(canvas).strokes@, picture.with_all(question_layers(r, q.deep_view()))),
{
    let x: usize = r.x as usize + 2;
    let w: usize = r.width as usize - 4;
    let hint: u16 = (r.y as u32 + r.height as u32 - 2) as u16;
    let ghost start = picture;
    let ghost mut picture = picture;
    canvas.write_over(
        Ghost(picture),
        x,
        r.y + 1,
        q.question.as_str(),
        Role::TextPrimary,
        w,
    );
    proof {
        picture = picture.with(
            run(x as int, r.y + 1, q.question@, Role::TextPrimary, w as int),
        );
    }
    draw_options(canvas, Ghost(picture), r, &q.options);
    proof {
        picture = picture.with_all(
            option_layers(r, q.options.deep_view(), 0, r.y + 3),
        );
    }
    canvas.write_over(Ghost(picture), x, hint, "1-9:choose ", Role::TextMuted, w);
    proof {
        picture = picture.with(
            run(x as int, hint as int, "1-9:choose "@, Role::TextMuted, w as int),
        );
    }
    canvas.write_over(Ghost(picture), x + 11, hint, "[o]other ", Role::Cyan, w - 11);
    proof {
        picture = picture.with(run(x + 11, hint as int, "[o]other "@, Role::Cyan, w - 11));
    }
    canvas.write_over(Ghost(picture), x + 20, hint, "[n/Esc]no", Role::Red, w - 20);
    proof {
        picture = picture.with(run(x + 20, hint as int, "[n/Esc]no"@, Role::Red, w - 20));
        assert(picture.layers =~= start.layers + question_layers(r, q.deep_view()));
        assert(picture =~= start.with_all(question_layers(r, q.deep_view())));
    }
}

/// A request for a tool, in strokes over its box.
fn draw_tool(
    canvas: &mut Canvas,
    Ghost(picture): Ghost<Picture>,
    r: Rect,
    req: &PermissionRequest,
    lines: &Vec<String>,
)
    requires
        r.fits(),
        r.width >= 30,
        r.y + 3 <= u16::MAX,
        r.y + r.height >= 2,
        text::texts(lines@) == text::lines(req.input_preview@),
        draws(old(canvas).strokes@, picture),
    ensures
        draws(final(canvas).strokes@, picture.with_all(tool_layers(r, req.deep_view()))),
{
    let x: usize = r.x as usize + 2;
    let w: usize = r.width as usize - 4;
    let hint: u16 = (r.y as u32 + r.height as u32 - 2) as u16;
    let ghost start = picture;
    let ghost mut picture = picture;
    let tool_line = cat2("Tool: ", req.tool_name.as_str());
    canvas.write_over(
        Ghost(picture),
        x,
        r.y + 1,
        tool_line.as_str(),
        Role::Orange,
        w,
    );
    proof {
        picture = picture.with(
            run(x as int, r.y + 1, tool_line@, Role::Orange, w as int),
        );
    }
    canvas.write_over(Ghost(picture), x, r.y + 2, "Input:", Role::TextSecondary, w);
    proof {
        picture = picture.with(
            run(x as int, r.y + 2, "Input:"@, Role::TextSecondary, w as int),
        );
    }
    draw_preview(canvas, Ghost(picture), r, lines);
    let ghost all = text::texts(lines@);
    proof {
        picture = picture.with_all(preview_layers(r, all, preview_count(r, all)));
    }
    let from: usize = x + w.saturating_sub(30) / 2;
    let edge: usize = r.x as usize + r.width as usize - 1;
    canvas.write_over(Ghost(picture), from, hint, "[y/Enter]", Role::Green, edge - from);
    proof {
        picture = picture.with(
            run(from as int, hint as int, "[y/Enter]"@, Role::Green, edge - from),
        );
    }
    canvas.write_over(
        Ghost(picture),
        from + 9,
        hint,
        " Allow   ",
        Role::TextPrimary,
        edge - (from + 9),
    );
    proof {
        picture = picture.with(
            run(from + 9, hint as int, " Allow   "@, Role::TextPrimary, edge - (from + 9)),
        );
    }
    canvas.write_over(
        Ghost(picture),
        from + 18,
        hint,
        "[n/Esc]",
        Role::Red,
        edge - (from + 18),
    );
    proof {
        picture = picture.with(
            run(from + 18, hint as int, "[n/Esc]"@, Role::Red, edge - (from + 18)),
        );
    }
    canvas.write_over(
        Ghost(picture),
        from + 25,
        hint,
        " Deny",
        Role::TextPrimary,
        edge - (from + 25),
    );
    proof {
        picture = picture.with(
            run(from + 25, hint as int, " Deny"@, Role::TextPrimary, edge - (from + 25)),
        );
        assert(picture.layers =~= start.layers + tool_layers(r, req.deep_view()));
        assert(picture =~= start.with_all(tool_layers(r, req.deep_view())));
    }
}

/// How many rows a request takes without its border.
fn rows_of(req: &PermissionRequest, lines: &Vec<String>) -> (n: usize)
    requires
        text::texts(lines@) == text::lines(req.input_preview@),
    ensures
        n == request_rows(req.deep_view()) || (n == usize::MAX && request_rows(req.deep_view())
            >= usize::MAX),
{
    if req.questions.len() > 0 {
        assert(req.deep_view().questions[0].options.len() == req.questions@[0].options@.len());
        req.questions[0].options.len().saturating_add(3)
    } else if lines.len() < 8 {
        4 + lines.len()
    } else {
        12
    }
}

/// Where a request is shown.
fn place_request(area: Rect, req: &PermissionRequest, lines: &Vec<String>) -> (r: Rect)
    requires
        area.fits(),
        request_rows(req.deep_view()) + 2 <= u16::MAX,
        text::texts(lines@) == text::lines(req.input_preview@),
    ensures
        r == request_area(area, req.deep_view()),
        r.width >= 30,
{
    let width: u16 = if area.width >= 60 {
        60
    } else if area.width >= 30 {
        area.width
    } else {
        30
    };
    let content_lines: u16 = rows_of(req, lines) as u16;
    let height: u16 = if 2 + content_lines <= area.height {
        2 + content_lines
    } else {
        area.height
    };
    Rect {
        x: area.x + area.width.saturating_sub(width) / 2,
        y: area.y + (area.height - height) / 2,
        width,
        height,
    }
}

/// Whether there is room in the coordinates for a request that waits.
pub fn request_has_room(area: Rect, req: &PermissionRequest, assistant: &str) -> (r: bool)
    ensures
        r == request_fits(area, req.deep_view(), assistant@),
{
    let lines = lines_of(req.input_preview.as_str());
    if !area.is_in_range() || rows_of(req, &lines) > 65_533 {
        return false;
    }
    let title = title_of(req, assistant);
    let place = place_request(area, req, &lines);
    place.is_in_range() && place.y <= u16::MAX - 3 && (place.y >= 2 || place.y + place.height >= 2)
        && bytes_in(title.as_str()) <= 65_533
}

/// What stands above a request.
fn title_of(req: &PermissionRequest, assistant: &str) -> (r: String)
    ensures
        r@ == request_title(req.deep_view(), assistant@),
{
    if req.questions.len() > 0 {
        cat3(" ", assistant, " asks ")
    } else {
        " Permission Required ".to_string()
    }
}

/// The request that waits, in strokes over the tile; `assistant` is the name that is shown.
pub fn render_permission_overlay(area: Rect, req: &PermissionRequest, assistant: &str) -> (r: Vec<
    Stroke,
>)
    requires
        request_fits(area, req.deep_view(), assistant@),
    ensures
        draws(r@, request_picture(area, req.deep_view(), assistant@)),
{
    let ghost v = req.deep_view();
    let is_question = req.questions.len() > 0;
    let lines = lines_of(req.input_preview.as_str());
    let overlay = place_request(area, req, &lines);
    let overlay_width = overlay.width;
    let border = if is_question {
        Role::Cyan
    } else {
        Role::Yellow
    };
    let whole = title_of(req, assistant);
    let title_len: usize = bytes_in(whole.as_str());
    let wanted: u16 = 2 + title_len as u16;
    let gap: u16 = overlay_width.saturating_sub(wanted) / 2;
    let title_x: u16 = overlay.x + 1 + gap;
    let title = truncate_chars(whole.as_str(), (overlay_width - 2 - gap) as usize);
    let mut canvas = Canvas::of_box(overlay, border, title_x, title);
    let ghost blank = Picture {
        area: overlay,
        border,
        title_x: title_x as int,
        title: title@,
        layers: Seq::empty(),
    };
    if is_question {
        assert(v.questions[0] == req.questions@[0].deep_view());
        draw_question(&mut canvas, Ghost(blank), overlay, &req.questions[0]);
    } else {
        draw_tool(&mut canvas, Ghost(blank), overlay, req, &lines);
    }
    let ghost picture = request_picture(area, v, assistant@);
    assert(Seq::<Layer>::empty() + picture.layers == picture.layers);
    assert(blank.with_all(picture.layers) =~= picture);
    canvas.strokes
}

// ── Laws ──

/// Whether a layer touches no cell outside a rectangle.
spec fn stays_in(layer: Layer, r: Rect) -> bool {
    match layer {
        Layer::Tint { from, to, y, bg } => from >= to || (r.y <= y < r.y + r.height && r.x <= from
            && to <= r.x + r.width),
        Layer::Run { x, y, text, fg } => text.len() == 0 || (r.y <= y < r.y + r.height && r.x <= x
            && x + text.len() <= r.x + r.width),
    }
}

spec fn all_stay_in(layers: Seq<Layer>, r: Rect) -> bool {
    forall|i: int| 0 <= i < layers.len() ==> stays_in(#[trigger] layers[i], r)
}

proof fn lemma_layers_outside(layers: Seq<Layer>, r: Rect, x: int, y: int, under: Cell)
    requires
        all_stay_in(layers, r),
        !r.holds(x, y),
    ensures
        layered(layers, x, y, under) == under,
    decreases layers.len(),
{
    if layers.len() > 0 {
        lemma_layers_outside(layers.drop_last(), r, x, y, under);
        assert(stays_in(layers[layers.len() - 1], r));
    }
}

proof fn lemma_popup_stays_in(
    r: Rect,
    commands: Seq<(Seq<char>, Seq<char>)>,
    selected: int,
    k: int,
)
    requires
        r.width >= 20,
        0 <= k <= r.height - 2,
        k <= commands.len(),
    ensures
        all_stay_in(popup_layers(r, commands, selected, k), r),
    decreases k,
{
    if k > 0 {
        lemma_popup_stays_in(r, commands, selected, k - 1);
        let before = popup_layers(r, commands, selected, k - 1);
        let more = command_layers(r, commands[k - 1], k - 1, k - 1 == selected);
        assert(all_stay_in(more, r));
        assert forall|i: int| 0 <= i < (before + more).len() implies stays_in(
            #[trigger] (before + more)[i],
            r,
        ) by {
            if i < before.len() {
                assert((before + more)[i] == before[i]);
            } else {
                assert((before + more)[i] == more[i - before.len()]);
            }
        }
    }
}

/// The popup stays in its box: no other cell changes.
pub proof fn law_popup_stays_in_its_box(s: SessionView, input: Rect, x: int, y: int)
    requires
        s.popup(input) is Some,
        !s.popup(input)->0.area.holds(x, y),
    ensures
        s.popup(input)->0.cell(x, y) == screen::untouched(),
{
    let picture = s.popup(input)->0;
    let commands = s.popup_commands();
    let k = if commands.len() <= picture.area.height - 2 {
        commands.len() as int
    } else {
        picture.area.height - 2
    };
    lemma_popup_stays_in(picture.area, commands, s.slash_popup_selected, k);
    lemma_layers_outside(
        picture.layers,
        picture.area,
        x,
        y,
        box_cell(picture.area, picture.border, picture.title_x, picture.title, x, y),
    );
}

proof fn lemma_options_stay_in(r: Rect, options: Seq<OptionView>, i: int, row: int)
    requires
        r.width >= 30,
        0 <= i <= options.len(),
        r.y < row,
    ensures
        all_stay_in(option_layers(r, options, i, row), r),
    decreases options.len() - i,
{
    if i < options.len() && row < r.y + r.height - 2 {
        lemma_options_stay_in(r, options, i + 1, row + 1);
        lemma_options_stay_in(r, options, i + 1, row + 2);
        let opt = options[i];
        let num = "["@ + text::decimal((i + 1) as nat) + "] "@;
        let x = r.x + 2;
        let w = r.width - 4;
        let head = seq![
            run(x, row, num, Role::Green, w),
            run(x + num.len(), row, opt.label, Role::Cyan, w - num.len()),
        ];
        assert(all_stay_in(head, r));
        let (first, rest) = if opt.description.len() > 0 && row + 1 < r.y + r.height - 2 {
            (
                head.push(run(x, row + 1, "    "@ + opt.description, Role::TextMuted, w)),
                option_layers(r, options, i + 1, row + 2),
            )
        } else {
            (head, option_layers(r, options, i + 1, row + 1))
        };
        lemma_both_stay_in(first, rest, r);
    }
}

proof fn lemma_both_stay_in(a: Seq<Layer>, b: Seq<Layer>, r: Rect)
    requires
        all_stay_in(a, r),
        all_stay_in(b, r),
    ensures
        all_stay_in(a + b, r),
{
    assert forall|i: int| 0 <= i < (a + b).len() implies stays_in(#[trigger] (a + b)[i], r) by {
        if i < a.len() {
            assert((a + b)[i] == a[i]);
        } else {
            assert((a + b)[i] == b[i - a.len()]);
        }
    }
}

proof fn lemma_preview_stays_in(r: Rect, lines: Seq<Seq<char>>, k: int)
    requires
        r.width >= 30,
        0 <= k,
        k + 3 <= r.height,
    ensures
        all_stay_in(preview_layers(r, lines, k), r),
    decreases k,
{
    if k > 0 {
        lemma_preview_stays_in(r, lines, k - 1);
    }
}

/// A request stays in its box, where the box has room for a row of text: no other cell changes.
pub proof fn law_request_stays_in_its_box(
    area: Rect,
    req: RequestView,
    assistant: Seq<char>,
    x: int,
    y: int,
)
    requires
        request_fits(area, req, assistant),
        request_area(area, req).height >= 3,
        !request_area(area, req).holds(x, y),
    ensures
        request_picture(area, req, assistant).cell(x, y) == screen::untouched(),
{
    let picture = request_picture(area, req, assistant);
    let r = picture.area;
    if req.questions.len() > 0 {
        let q = req.questions[0];
        lemma_options_stay_in(r, q.options, 0, r.y + 3);
        let hint = r.y + r.height - 2;
        let first = seq![run(r.x + 2, r.y + 1, q.question, Role::TextPrimary, r.width - 4)];
        let last = seq![
            run(r.x + 2, hint, "1-9:choose "@, Role::TextMuted, r.width - 4),
            run(r.x + 2 + 11, hint, "[o]other "@, Role::Cyan, r.width - 4 - 11),
            run(r.x + 2 + 20, hint, "[n/Esc]no"@, Role::Red, r.width - 4 - 20),
        ];
        let options = option_layers(r, q.options, 0, r.y + 3);
        lemma_both_stay_in(first, options, r);
        lemma_both_stay_in(first + options, last, r);
    } else {
        let lines = text::lines(req.input_preview);
        let shown = preview_layers(r, lines, preview_count(r, lines));
        lemma_preview_stays_in(r, lines, preview_count(r, lines));
        let hint = r.y + r.height - 2;
        let x0 = r.x + 2;
        let w = r.width - 4;
        let from = x0 + (if w >= 30 {
            (w - 30) / 2
        } else {
            0
        });
        let edge = r.x + r.width - 1;
        let first = seq![
            run(x0, r.y + 1, "Tool: "@ + req.tool_name, Role::Orange, w),
            run(x0, r.y + 2, "Input:"@, Role::TextSecondary, w),
        ];
        let last = seq![
            run(from, hint, "[y/Enter]"@, Role::Green, edge - from),
            run(from + 9, hint, " Allow   "@, Role::TextPrimary, edge - (from + 9)),
            run(from + 18, hint, "[n/Esc]"@, Role::Red, edge - (from + 18)),
            run(from + 25, hint, " Deny"@, Role::TextPrimary, edge - (from + 25)),
        ];
        lemma_both_stay_in(first, shown, r);
        lemma_both_stay_in(first + shown, last, r);
    }
    lemma_layers_outside(
        picture.layers,
        r,
        x,
        y,
        box_cell(r, picture.border, picture.title_x, picture.title, x, y),
    );
}

/// Layers lie over one another in their order.
proof fn lemma_layers_in_order(a: Seq<Layer>, b: Seq<Layer>, x: int, y: int, under: Cell)
    ensures
        layered(a + b, x, y, under) == layered(b, x, y, layered(a, x, y, under)),
    decreases b.len(),
{
    if b.len() == 0 {
        assert(a + b == a);
    } else {
        lemma_layers_in_order(a, b.drop_last(), x, y, under);
        assert((a + b).drop_last() == a + b.drop_last());
    }
}

/// Whether a layer lies in another row.
spec fn off_row(layer: Layer, row: int) -> bool {
    match layer {
        Layer::Tint { from, to, y, bg } => y != row,
        Layer::Run { x, y, text, fg } => y != row,
    }
}

proof fn lemma_other_rows(layers: Seq<Layer>, x: int, y: int, under: Cell)
    requires
        forall|i: int| 0 <= i < layers.len() ==> off_row(#[trigger] layers[i], y),
    ensures
        layered(layers, x, y, under) == under,
    decreases layers.len(),
{
    if layers.len() > 0 {
        assert(off_row(layers[layers.len() - 1], y));
        assert forall|i: int| 0 <= i < layers.drop_last().len() implies off_row(
            #[trigger] layers.drop_last()[i],
            y,
        ) by {
            assert(off_row(layers[i], y));
        }
        lemma_other_rows(layers.drop_last(), x, y, under);
    }
}

proof fn lemma_popup_row(
    r: Rect,
    commands: Seq<(Seq<char>, Seq<char>)>,
    selected: int,
    k: int,
    i: int,
    x: int,
    under: Cell,
)
    requires
        0 <= i,
        0 <= k,
    ensures
        layered(popup_layers(r, commands, selected, k), x, r.y + 1 + i, under) == (if i < k {
            layered(
                command_layers(r, commands[i], i, i == selected),
                x,
                r.y + 1 + i,
                under,
            )
        } else {
            under
        }),
    decreases k,
{
    let y = r.y + 1 + i;
    if k > 0 {
        lemma_popup_row(r, commands, selected, k - 1, i, x, under);
        let before = popup_layers(r, commands, selected, k - 1);
        let more = command_layers(r, commands[k - 1], k - 1, k - 1 == selected);
        lemma_layers_in_order(before, more, x, y, under);
        if i != k - 1 {
            lemma_other_rows(more, x, y, layered(before, x, y, under));
        }
    }
}

/// The popup shows the commands that it offers one below the other, each with its name and behind
/// it what it does, as far as there is room; the selected one in another colour.
pub proof fn law_the_popup_shows_the_offers(s: SessionView, input: Rect, i: int, j: int)
    requires
        s.popup(input) is Some,
        0 <= i < s.popup_commands().len(),
        i < s.popup(input)->0.area.height - 2,
        0 <= j,
    ensures
        ({
            let p = s.popup(input)->0;
            let (name, what) = s.popup_commands()[i];
            let room = p.area.width - 4;
            let name_cell = p.cell(p.area.x + 2 + j, p.area.y + 1 + i);
            let what_cell = p.cell(p.area.x + 3 + name.len() + j, p.area.y + 1 + i);
            &&& j < name.len() && j < room ==> name_cell.ch == Some(name[j])
            &&& j < name.len() && j < room && i == s.slash_popup_selected ==> name_cell.fg == Some(
                Role::Green,
            )
            &&& j < name.len() && j < room && i != s.slash_popup_selected ==> name_cell.fg == Some(
                Role::Cyan,
            )
            &&& j < what.len() && name.len() + 1 + j < room ==> what_cell.ch == Some(what[j])
        }),
{
    reveal_with_fuel(layered, 5);
    let p = s.popup(input)->0;
    let commands = s.popup_commands();
    let r = p.area;
    let k = if commands.len() <= r.height - 2 {
        commands.len() as int
    } else {
        r.height - 2
    };
    let (name, what) = commands[i];
    let y = r.y + 1 + i;
    let x1 = r.x + 2 + j;
    let x2 = r.x + 3 + name.len() + j;
    let u1 = box_cell(r, p.border, p.title_x, p.title, x1, y);
    let u2 = box_cell(r, p.border, p.title_x, p.title, x2, y);
    lemma_popup_row(r, commands, s.slash_popup_selected, k, i, x1, u1);
    lemma_popup_row(r, commands, s.slash_popup_selected, k, i, x2, u2);
    let w = r.width - 4;
    let selected = i == s.slash_popup_selected;
    let first = run(
        r.x + 2,
        y,
        name,
        if selected {
            Role::Green
        } else {
            Role::Cyan
        },
        w,
    );
    let second = run(r.x + 2 + name.len() + 1, y, what, Role::TextMuted, w - (name.len() + 1));
    let tint = Layer::Tint { from: r.x + 1, to: r.x + r.width - 1, y, bg: Role::BgPrimary };
    let texts = seq![first, second];
    let mine = command_layers(r, commands[i], i, selected);
    text::law_first_chars(name, w as nat);
    text::law_first_chars(
        what,
        if w - (name.len() + 1) > 0 {
            (w - (name.len() + 1)) as nat
        } else {
            0
        },
    );
    assert(texts.drop_last() =~= seq![first]);
    assert(seq![first].drop_last() =~= Seq::<Layer>::empty());
    let head = seq![tint];
    assert(head.drop_last() =~= Seq::<Layer>::empty());
    lemma_layers_in_order(head, texts, x1, y, u1);
    lemma_layers_in_order(head, texts, x2, y, u2);
}

/// The popup stands on the input: it ends where the input begins, and has a row for each command
/// between its borders, as far as there is room above.
pub proof fn law_the_popup_stands_on_the_input(input: Rect, count: int)
    requires
        count >= 0,
    ensures
        popup_area(input, count) matches Some(r) ==> r.y + r.height == input.y && r.x == input.x && (
        count + 2 <= input.y ==> r.height == count + 2) && (count + 2 > input.y ==> r.height
            == input.y) && 20 <= r.width <= 44 && (20 <= input.width <= 44 ==> r.width
            == input.width),
        popup_area(input, count) is None <==> count == 0 || input.y < 3,
{
}

/// A request stands in the middle of its area and within it, where the area has room; it has a row
/// for each line that it shows, between its borders.
pub proof fn law_the_request_stands_in_the_middle(area: Rect, req: RequestView)
    requires
        area.fits(),
        area.width >= 30,
        2 + request_rows(req) <= area.height,
    ensures
        ({
            let r = request_area(area, req);
            let left = r.x - area.x;
            let right = area.x + area.width - (r.x + r.width);
            let above = r.y - area.y;
            let below = area.y + area.height - (r.y + r.height);
            &&& 0 <= left <= right <= left + 1
            &&& 0 <= above <= below <= above + 1
            &&& r.height == 2 + request_rows(req)
            &&& area.width >= 60 ==> r.width == 60
            &&& area.width <= 60 ==> r.width == area.width
        }),
{
}

proof fn lemma_preview_row(
    r: Rect,
    lines: Seq<Seq<char>>,
    k: int,
    i: int,
    x: int,
    under: Cell,
)
    requires
        0 <= i,
        0 <= k,
    ensures
        layered(preview_layers(r, lines, k), x, r.y + 3 + i, under) == (if i < k {
            run(r.x + 2, r.y + 3 + i, "  "@ + lines[i], Role::TextSecondary, r.width - 4).over(
                x,
                r.y + 3 + i,
                under,
            )
        } else {
            under
        }),
    decreases k,
{
    if k > 0 {
        lemma_preview_row(r, lines, k - 1, i, x, under);
        let all = preview_layers(r, lines, k);
        let before = preview_layers(r, lines, k - 1);
        assert(all.drop_last() =~= before);
        if i == k - 1 {
            assert(r.y + 2 + k == r.y + 3 + i);
        }
    }
}

proof fn lemma_preview_rows_are_below(r: Rect, lines: Seq<Seq<char>>, k: int)
    requires
        0 <= k,
    ensures
        forall|i: int|
            0 <= i < preview_layers(r, lines, k).len() ==> (#[trigger] preview_layers(
                r,
                lines,
                k,
            )[i] matches Layer::Run { x, y, text, fg } && y >= r.y + 3),
    decreases k,
{
    if k > 0 {
        lemma_preview_rows_are_below(r, lines, k - 1);
    }
}

/// A request for a tool shows the name of the tool and, below it, its input line by line, as far
/// as there is room.
pub proof fn law_the_request_shows_the_tool(
    area: Rect,
    req: RequestView,
    assistant: Seq<char>,
    i: int,
    j: int,
)
    requires
        req.questions.len() == 0,
        request_area(area, req).height >= 5,
        0 <= i,
        0 <= j < request_area(area, req).width - 4,
    ensures
        ({
            let p = request_picture(area, req, assistant);
            let r = p.area;
            let lines = text::lines(req.input_preview);
            let head = "Tool: "@ + req.tool_name;
            &&& j < head.len() ==> p.cell(r.x + 2 + j, r.y + 1).ch == Some(head[j])
            &&& i < preview_count(r, lines) && j < ("  "@ + lines[i]).len() ==> p.cell(
                r.x + 2 + j,
                r.y + 3 + i,
            ).ch == Some(("  "@ + lines[i])[j])
        }),
{
    reveal_with_fuel(layered, 4);
    let p = request_picture(area, req, assistant);
    let r = p.area;
    let lines = text::lines(req.input_preview);
    let k = preview_count(r, lines);
    let w = r.width - 4;
    let head = "Tool: "@ + req.tool_name;
    let hint = r.y + r.height - 2;
    let from = r.x + 2 + (if w >= 30 {
        (w - 30) / 2
    } else {
        0
    });
    let edge = r.x + r.width - 1;
    let tool = run(r.x + 2, r.y + 1, head, Role::Orange, w);
    let label = run(r.x + 2, r.y + 2, "Input:"@, Role::TextSecondary, w);
    let first = seq![tool, label];
    let shown = preview_layers(r, lines, k);
    let last = seq![
        run(from, hint, "[y/Enter]"@, Role::Green, edge - from),
        run(from + 9, hint, " Allow   "@, Role::TextPrimary, edge - (from + 9)),
        run(from + 18, hint, "[n/Esc]"@, Role::Red, edge - (from + 18)),
        run(from + 25, hint, " Deny"@, Role::TextPrimary, edge - (from + 25)),
    ];
    assert(p.layers =~= first + shown + last);
    let x = r.x + 2 + j;
    text::law_first_chars(head, w as nat);
    lemma_preview_rows_are_below(r, lines, k);
    assert(first.drop_last() =~= seq![tool]);
    assert(seq![tool].drop_last() =~= Seq::<Layer>::empty());
    if j < head.len() {
        let y = r.y + 1;
        let under = box_cell(r, p.border, p.title_x, p.title, x, y);
        lemma_layers_in_order(first + shown, last, x, y, under);
        lemma_layers_in_order(first, shown, x, y, under);
        lemma_other_rows(last, x, y, layered(first + shown, x, y, under));
        lemma_other_rows(shown, x, y, layered(first, x, y, under));
    }
    if i < k && j < ("  "@ + lines[i]).len() {
        let y = r.y + 3 + i;
        let under = box_cell(r, p.border, p.title_x, p.title, x, y);
        text::law_first_chars("  "@ + lines[i], w as nat);
        lemma_layers_in_order(first + shown, last, x, y, under);
        lemma_layers_in_order(first, shown, x, y, under);
        lemma_other_rows(last, x, y, layered(first + shown, x, y, under));
        lemma_preview_row(r, lines, k, i, x, layered(first, x, y, under));
    }
}

proof fn lemma_options_are_below(r: Rect, options: Seq<OptionView>, i: int, row: int)
    requires
        0 <= i,
    ensures
        forall|n: int|
            0 <= n < option_layers(r, options, i, row).len() ==> (#[trigger] option_layers(
                r,
                options,
                i,
                row,
            )[n] matches Layer::Run { x, y, text, fg } && row <= y < r.y + r.height - 2),
    decreases options.len() - i,
{
    if i < options.len() && row < r.y + r.height - 2 {
        lemma_options_are_below(r, options, i + 1, row + 1);
        lemma_options_are_below(r, options, i + 1, row + 2);
    }
}

/// The options of a question stand one below the other, as far as there is room: each in its row
/// with its number in brackets and its label, and with its description in the next row where it
/// has one; the next option follows below that.
pub proof fn law_options_one_below_the_other(
    r: Rect,
    options: Seq<OptionView>,
    i: int,
    row: int,
    j: int,
    y: int,
    under: Cell,
)
    requires
        0 <= i < options.len(),
        row < r.y + r.height - 2,
        0 <= j < r.width - 4,
    ensures
        ({
            let shown = "["@ + text::decimal((i + 1) as nat) + "] "@ + options[i].label;
            let described = options[i].description.len() > 0 && row + 1 < r.y + r.height - 2;
            let told = "    "@ + options[i].description;
            let next = if described {
                row + 2
            } else {
                row + 1
            };
            let mine = option_layers(r, options, i, row);
            let x = r.x + 2 + j;
            &&& j < shown.len() ==> layered(mine, x, row, under).ch == Some(shown[j])
            &&& described && j < told.len() ==> layered(mine, x, row + 1, under).ch == Some(told[j])
            &&& y >= next ==> layered(mine, x, y, under) == layered(
                option_layers(r, options, i + 1, next),
                x,
                y,
                under,
            )
        }),
{
    let x = r.x + 2 + j;
    let w = r.width - 4;
    let opt = options[i];
    let num = "["@ + text::decimal((i + 1) as nat) + "] "@;
    let told = "    "@ + opt.description;
    let described = opt.description.len() > 0 && row + 1 < r.y + r.height - 2;
    let pair = seq![
        run(r.x + 2, row, num, Role::Green, w),
        run(r.x + 2 + num.len(), row, opt.label, Role::Cyan, w - num.len()),
    ];
    let third = seq![run(r.x + 2, row + 1, told, Role::TextMuted, w)];
    let none = Seq::<Layer>::empty();
    let below = if described {
        third
    } else {
        none
    };
    let next = if described {
        row + 2
    } else {
        row + 1
    };
    let more = option_layers(r, options, i + 1, next);
    let mine = option_layers(r, options, i, row);
    assert(mine =~= pair + below + more);
    lemma_options_are_below(r, options, i + 1, next);
    if j < (num + opt.label).len() {
        let under_more = layered(pair + below, x, row, under);
        lemma_layers_in_order(pair + below, more, x, row, under);
        lemma_layers_in_order(pair, below, x, row, under);
        lemma_other_rows(more, x, row, under_more);
        lemma_other_rows(below, x, row, layered(pair, x, row, under));
        lemma_two_runs(r.x + 2, row, num, opt.label, w, j, under);
    }
    if described && j < told.len() {
        let at = row + 1;
        lemma_layers_in_order(pair + below, more, x, at, under);
        lemma_layers_in_order(pair, below, x, at, under);
        lemma_other_rows(more, x, at, layered(pair + below, x, at, under));
        lemma_other_rows(pair, x, at, under);
        lemma_one_run(r.x + 2, at, told, w, j, under);
    }
    if y >= next {
        lemma_layers_in_order(pair + below, more, x, y, under);
        lemma_layers_in_order(pair, below, x, y, under);
        lemma_other_rows(pair, x, y, under);
        lemma_other_rows(below, x, y, under);
    }
}

proof fn lemma_one_run(x: int, y: int, s: Seq<char>, w: int, j: int, under: Cell)
    requires
        0 <= j < w,
        j < s.len(),
    ensures
        layered(seq![run(x, y, s, Role::TextMuted, w)], x + j, y, under).ch == Some(s[j]),
{
    let only = seq![run(x, y, s, Role::TextMuted, w)];
    assert(only.drop_last() =~= Seq::<Layer>::empty());
    assert(layered(only.drop_last(), x + j, y, under) == under);
    text::law_first_chars(s, w as nat);
}

proof fn lemma_two_runs(
    x: int,
    y: int,
    a: Seq<char>,
    b: Seq<char>,
    w: int,
    j: int,
    under: Cell,
)
    requires
        0 <= j < w,
        j < (a + b).len(),
    ensures
        layered(
            seq![run(x, y, a, Role::Green, w), run(x + a.len(), y, b, Role::Cyan, w - a.len())],
            x + j,
            y,
            under,
        ).ch == Some((a + b)[j]),
{
    let first = run(x, y, a, Role::Green, w);
    let second = run(x + a.len(), y, b, Role::Cyan, w - a.len());
    let both = seq![first, second];
    let one = seq![first];
    assert(both.drop_last() =~= one);
    assert(one.drop_last() =~= Seq::<Layer>::empty());
    assert(layered(one.drop_last(), x + j, y, under) == under);
    assert(layered(one, x + j, y, under) == first.over(x + j, y, under));
    assert(layered(both, x + j, y, under) == second.over(
        x + j,
        y,
        layered(one, x + j, y, under),
    ));
    text::law_first_chars(a, w as nat);
    if j >= a.len() {
        text::law_first_chars(b, (w - a.len()) as nat);
    }
}

/// A question shows its text and, below it, its options from the first on, as far as there is
/// room.
pub proof fn law_the_request_shows_the_question(
    area: Rect,
    req: RequestView,
    assistant: Seq<char>,
    j: int,
)
    requires
        req.questions.len() > 0,
        request_area(area, req).height >= 6,
        0 <= j < request_area(area, req).width - 4,
    ensures
        ({
            let p = request_picture(area, req, assistant);
            let r = p.area;
            let q = req.questions[0];
            let first = "["@ + text::decimal(1) + "] "@ + q.options[0].label;
            &&& j < q.question.len() ==> p.cell(r.x + 2 + j, r.y + 1).ch == Some(q.question[j])
            &&& q.options.len() > 0 && j < first.len() ==> p.cell(r.x + 2 + j, r.y + 3).ch == Some(
                first[j],
            )
        }),
{
    reveal_with_fuel(layered, 2);
    let p = request_picture(area, req, assistant);
    let r = p.area;
    let q = req.questions[0];
    let w = r.width - 4;
    let hint = r.y + r.height - 2;
    let head = seq![run(r.x + 2, r.y + 1, q.question, Role::TextPrimary, w)];
    let options = option_layers(r, q.options, 0, r.y + 3);
    let last = seq![
        run(r.x + 2, hint, "1-9:choose "@, Role::TextMuted, w),
        run(r.x + 2 + 11, hint, "[o]other "@, Role::Cyan, w - 11),
        run(r.x + 2 + 20, hint, "[n/Esc]no"@, Role::Red, w - 20),
    ];
    assert(p.layers =~= head + options + last);
    let x = r.x + 2 + j;
    let top = r.y + 1;
    let low = r.y + 3;
    let over = box_cell(r, p.border, p.title_x, p.title, x, top);
    let under = box_cell(r, p.border, p.title_x, p.title, x, low);
    assert(layered(p.layers, x, top, over) == layered(head, x, top, over)) by {
        lemma_options_are_below(r, q.options, 0, low);
        lemma_layers_in_order(head + options, last, x, top, over);
        lemma_layers_in_order(head, options, x, top, over);
        lemma_other_rows(last, x, top, layered(head + options, x, top, over));
        lemma_other_rows(options, x, top, layered(head, x, top, over));
    }
    assert(layered(p.layers, x, low, under) == layered(options, x, low, under)) by {
        lemma_layers_in_order(head + options, last, x, low, under);
        lemma_layers_in_order(head, options, x, low, under);
        lemma_other_rows(last, x, low, layered(head + options, x, low, under));
        lemma_other_rows(head, x, low, under);
    }
    assert(head.drop_last() =~= Seq::<Layer>::empty());
    text::law_first_chars(q.question, w as nat);
    if q.options.len() > 0 {
        law_options_one_below_the_other(r, q.options, 0, low, j, low, under);
    }
}

/// A box has its border around it and its title in its upper edge, and is blank within.
pub proof fn law_the_box(r: Rect, border: Role, title_x: int, title: Seq<char>, x: int, y: int)
    requires
        r.width >= 2,
        r.height >= 2,
        r.holds(x, y),
    ensures
        ({
            let cell = box_cell(r, border, title_x, title, x, y);
            let right = r.x + r.width - 1;
            let bottom = r.y + r.height - 1;
            &&& r.x < x < right && r.y < y < bottom ==> cell.ch == Some(' ')
            &&& (x == r.x || x == right) && r.y < y < bottom ==> cell.ch == Some('┃')
            &&& r.x < x < right && y == bottom ==> cell.ch == Some('━')
            &&& x == r.x && y == bottom ==> cell.ch == Some('┗')
            &&& x == right && y == bottom ==> cell.ch == Some('┛')
            &&& y == r.y && title_x <= x < title_x + title.len() ==> cell.ch == Some(
                title[x - title_x],
            )
            &&& x == r.x && y == r.y && x < title_x ==> cell.ch == Some('┏')
            &&& x == right && y == r.y && x >= title_x + title.len() ==> cell.ch == Some('┓')
            &&& x == r.x || x == right || y == r.y || y == bottom ==> cell.fg == Some(border)
        }),
{
}

/// There is room for the popup and for a request in every place that lies well within the
/// coordinates.
pub proof fn law_there_is_room_to_draw(
    s: SessionView,
    input: Rect,
    area: Rect,
    req: RequestView,
    assistant: Seq<char>,
)
    requires
        input.x <= 60_000 && input.y <= 60_000,
        area.x <= 30_000 && area.y <= 30_000 && area.width <= 30_000 && 2 <= area.height <= 30_000,
        request_rows(req) <= 30_000,
        cursor::byte_len(request_title(req, assistant)) <= 30_000,
    ensures
        s.popup_fits(input),
        request_fits(area, req, assistant),
{
}

/// What is drawn is the whole picture: strokes that draw it leave every cell as the picture has it.
pub proof fn law_the_whole_picture_is_drawn(
    strokes: Seq<Stroke>,
    picture: Picture,
    x: int,
    y: int,
)
    requires
        draws(strokes, picture),
    ensures
        screen::painted(strokes, x, y) == picture.cell(x, y),
{
}

/// The title of a request tells what it is, and stands in the middle of the upper edge where there
/// is room for it.
pub proof fn law_the_title_of_a_request(area: Rect, req: RequestView, assistant: Seq<char>)
    ensures
        ({
            let p = request_picture(area, req, assistant);
            let title = request_title(req, assistant);
            let size = cursor::byte_len(title) as int;
            let left = p.title_x - (p.area.x + 1);
            let right = p.area.width - 2 - size - left;
            &&& req.questions.len() > 0 ==> title == " "@ + assistant + " asks "@ && p.border
                == Role::Cyan
            &&& req.questions.len() == 0 ==> title == " Permission Required "@ && p.border
                == Role::Yellow
            &&& p.area.width >= 2 + size ==> 0 <= left <= right <= left + 1
            &&& p.area.width >= 2 + size && title.len() <= size ==> p.title == title
        }),
{
}

}
