//! What the terminal UI shows for a state: the tab labels, the line under the
//! tabs, the list rows, the key hints of the footer and the help overlay,
//! and where the overlay sits. Drawing them is the front end's part.

use vstd::prelude::*;

use crate::text::{owned, push_str};
use crate::tui::{current_of, level_of, App, LevelView, Mode, ModeView, Tab};

verus! {

/// A tab's label: bracketed when it is the active tab, padded otherwise, so
/// the active one reads in plain text too.
pub fn tab_label(tab: Tab, active: bool) -> (r: String)
    ensures
        r@ == if active {
            "["@ + tab.spec_title() + "]"@
        } else {
            " "@ + tab.spec_title() + " "@
        },
{
    let mut s = owned(if active {
        "["
    } else {
        " "
    });
    push_str(&mut s, tab.title());
    push_str(&mut s, if active {
        "]"
    } else {
        " "
    });
    s
}

/// A list row: a `> ` gutter marks the selected one, so the selection shows
/// without styling.
pub fn row_label(selected: bool, name: &str) -> (r: String)
    ensures
        r@ == (if selected {
            "> "@
        } else {
            "  "@
        }) + name@,
{
    let mut s = owned(if selected {
        "> "
    } else {
        "  "
    });
    push_str(&mut s, name);
    s
}

/// Where the current level sits.
pub open spec fn breadcrumb_of(app: App) -> Seq<char> {
    match level_of(app) {
        LevelView::Models(p) => "Providers \u{203a} "@ + p,
        LevelView::Providers => "Providers"@,
        LevelView::Specialists => "Specialists"@,
        LevelView::Tools => "Tools"@,
    }
}

/// The line under the tabs, before any status note: the prompt of the mode
/// being typed in, the delete question, or else the breadcrumb with the
/// filter in force.
pub open spec fn header_of(app: App) -> Seq<char> {
    match app.mode@ {
        ModeView::Search => "/"@ + app.filter@,
        ModeView::Rename(buf) => "rename \u{203a} "@ + buf,
        ModeView::Add(buf) => "add \u{203a} "@ + buf,
        ModeView::ConfirmDelete => "delete '"@ + match current_of(app) {
            Some(name) => name,
            None => Seq::empty(),
        } + "'? (y/n)"@,
        _ => breadcrumb_of(app) + if app.filter@.len() > 0 {
            "  (filter: "@ + app.filter@ + ")"@
        } else {
            Seq::empty()
        },
    }
}

/// The line under the tabs, with the status note (if any) after it.
pub open spec fn header_line(app: App) -> Seq<char> {
    header_of(app) + match app.status {
        Some(s) => "   \u{2014} "@ + s@,
        None => Seq::empty(),
    }
}

impl App {
    /// The line shown under the tabs.
    pub fn header_text(&self) -> (r: String)
        ensures
            r@ == header_line(*self),
    {
        let mut line = match self.mode() {
            Mode::Search => {
                let mut s = owned("/");
                push_str(&mut s, self.filter());
                s
            },
            Mode::Rename(buf) => {
                let mut s = owned("rename \u{203a} ");
                push_str(&mut s, buf.as_str());
                s
            },
            Mode::Add(buf) => {
                let mut s = owned("add \u{203a} ");
                push_str(&mut s, buf.as_str());
                s
            },
            Mode::ConfirmDelete => {
                let mut s = owned("delete '");
                match self.current() {
                    Some(name) => push_str(&mut s, name.as_str()),
                    None => {},
                }
                push_str(&mut s, "'? (y/n)");
                s
            },
            _ => {
                let mut s = self.breadcrumb();
                if self.filter().unicode_len() > 0 {
                    push_str(&mut s, "  (filter: ");
                    push_str(&mut s, self.filter());
                    push_str(&mut s, ")");
                }
                s
            },
        };
        match self.status() {
            Some(status) => {
                push_str(&mut line, "   \u{2014} ");
                push_str(&mut line, status);
            },
            None => {},
        }
        line
    }
}

/// The key hints of a mode, as (key, what it does), in footer order.
pub open spec fn hints_of(mode: ModeView) -> Seq<(Seq<char>, Seq<char>)> {
    match mode {
        ModeView::Search => seq![("type"@, "filter"@), ("\u{23ce}"@, "apply"@), ("esc"@, "cancel"@)],
        ModeView::Rename(_) => seq![("type"@, "name"@), ("\u{23ce}"@, "ok"@), ("esc"@, "cancel"@)],
        ModeView::Add(_) => seq![("type"@, "name"@), ("\u{23ce}"@, "ok"@), ("esc"@, "cancel"@)],
        ModeView::ConfirmDelete => seq![("y"@, "delete"@), ("n"@, "keep"@)],
        ModeView::Help => seq![("any"@, "close"@)],
        ModeView::Normal => seq![
            ("p/s/t"@, "tabs"@),
            ("hjkl"@, "nav"@),
            ("a"@, "add"@),
            ("o"@, "open"@),
            ("e"@, "edit"@),
            ("r"@, "rename"@),
            ("d"@, "del"@),
            ("/"@, "search"@),
            ("^r"@, "refresh"@),
            ("?"@, "help"@),
            ("q"@, "quit"@),
        ],
    }
}

pub open spec fn pair_views(v: Seq<(String, String)>) -> Seq<(Seq<char>, Seq<char>)> {
    v.map_values(|p: (String, String)| (p.0@, p.1@))
}

fn hint(key: &str, label: &str) -> (r: (String, String))
    ensures
        r.0@ == key@,
        r.1@ == label@,
{
    (owned(key), owned(label))
}

/// The footer's key hints for `mode`, which keep to what the mode accepts.
pub fn footer_hints(mode: &Mode) -> (r: Vec<(String, String)>)
    ensures
        pair_views(r@) == hints_of(mode@),
{
    let mut v: Vec<(String, String)> = Vec::new();
    match mode {
        Mode::Search => {
            v.push(hint("type", "filter"));
            v.push(hint("\u{23ce}", "apply"));
            v.push(hint("esc", "cancel"));
        },
        Mode::Rename(_) | Mode::Add(_) => {
            v.push(hint("type", "name"));
            v.push(hint("\u{23ce}", "ok"));
            v.push(hint("esc", "cancel"));
        },
        Mode::ConfirmDelete => {
            v.push(hint("y", "delete"));
            v.push(hint("n", "keep"));
        },
        Mode::Help => {
            v.push(hint("any", "close"));
        },
        Mode::Normal => {
            v.push(hint("p/s/t", "tabs"));
            v.push(hint("hjkl", "nav"));
            v.push(hint("a", "add"));
            v.push(hint("o", "open"));
            v.push(hint("e", "edit"));
            v.push(hint("r", "rename"));
            v.push(hint("d", "del"));
            v.push(hint("/", "search"));
            v.push(hint("^r", "refresh"));
            v.push(hint("?", "help"));
            v.push(hint("q", "quit"));
        },
    }
    assert(pair_views(v@) =~= hints_of(mode@));
    v
}

/// The lines of the help overlay, which lists every binding.
pub open spec fn help_text() -> Seq<Seq<char>> {
    seq![
        "Keys"@,
        ""@,
        "  p / s / t      providers \u{b7} specialists \u{b7} tools"@,
        "  h j k l \u{2190}\u{2193}\u{2191}\u{2192}   navigate (left: back \u{b7} right: into / open)"@,
        "  enter          into folder / open file"@,
        "  a              add"@,
        "  o              open (chat specialist \u{b7} run tool \u{b7} provider console)"@,
        "  e              edit in $EDITOR"@,
        "  d              delete (confirm y/n)"@,
        "  r              rename"@,
        "  /              search current view (enter applies)"@,
        "  ctrl+r         refresh from disk"@,
        "  ?              this help"@,
        "  q ctrl+c ^d    quit"@,
        ""@,
        "  press any key to close"@,
    ]
}

pub open spec fn str_views(v: Seq<&str>) -> Seq<Seq<char>> {
    v.map_values(|s: &str| s@)
}

/// The help overlay's lines.
pub fn help_lines() -> (r: Vec<&'static str>)
    ensures
        str_views(r@) == help_text(),
{
    let mut v: Vec<&'static str> = Vec::new();
    v.push("Keys");
    v.push("");
    v.push("  p / s / t      providers \u{b7} specialists \u{b7} tools");
    v.push("  h j k l \u{2190}\u{2193}\u{2191}\u{2192}   navigate (left: back \u{b7} right: into / open)");
    v.push("  enter          into folder / open file");
    v.push("  a              add");
    v.push("  o              open (chat specialist \u{b7} run tool \u{b7} provider console)");
    v.push("  e              edit in $EDITOR");
    v.push("  d              delete (confirm y/n)");
    v.push("  r              rename");
    v.push("  /              search current view (enter applies)");
    v.push("  ctrl+r         refresh from disk");
    v.push("  ?              this help");
    v.push("  q ctrl+c ^d    quit");
    v.push("");
    v.push("  press any key to close");
    assert(str_views(v@) =~= help_text());
    v
}

/// A rectangle on the screen: its left column, top row, width and height.
#[derive(Clone, Copy, Debug, PartialEq, Eq, Structural)]
pub struct Area {
    pub x: u16,
    pub y: u16,
    pub width: u16,
    pub height: u16,
}

/// `a - b`, or 0 when `b` is larger (`u16::saturating_sub`).
pub open spec fn less(a: int, b: int) -> int {
    if a >= b {
        a - b
    } else {
        0
    }
}

/// A `width` by `height` rectangle centered in `area`.
pub fn centered_rect(width: u16, height: u16, area: Area) -> (r: Area)
    requires
        area.x + less(area.width as int, width as int) / 2 <= u16::MAX,
        area.y + less(area.height as int, height as int) / 2 <= u16::MAX,
    ensures
        r.x == area.x + less(area.width as int, width as int) / 2,
        r.y == area.y + less(area.height as int, height as int) / 2,
        r.width == width,
        r.height == height,
{
    let dx = if area.width >= width {
        area.width - width
    } else {
        0
    };
    let dy = if area.height >= height {
        area.height - height
    } else {
        0
    };
    Area { x: area.x + dx / 2, y: area.y + dy / 2, width, height }
}

/// Where the help overlay goes in `area`: centered, as wide as its widest
/// line allows (64 columns) and as tall as its lines plus a border, each no
/// larger than the area.
pub fn help_popup(area: Area) -> (r: Area)
    requires
        area.x + area.width <= u16::MAX,
        area.y + area.height <= u16::MAX,
    ensures
        r.width == if 64 < area.width {
            64
        } else {
            area.width
        },
        r.height == if help_text().len() + 2 < area.height {
            (help_text().len() + 2) as int
        } else {
            area.height as int
        },
        r.x == area.x + (area.width - r.width) / 2,
        r.y == area.y + (area.height - r.height) / 2,
{
    let lines: u16 = 16 + 2;
    let height = if lines < area.height {
        lines
    } else {
        area.height
    };
    let width: u16 = if 64 < area.width {
        64
    } else {
        area.width
    };
    centered_rect(width, height, area)
}

} // verus!
