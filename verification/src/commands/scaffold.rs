//! The files `xtop plugin scaffold` and `xtop widget scaffold` write for a
//! new crate: manifests, library templates and a README, filled in with the
//! crate's name (and its capitalized form for type names). The caller
//! checks the target directory and writes the files.

use vstd::prelude::*;
use crate::text::{cat, chars_of, concat_views, push_range};

verus! {

/// What `char::to_uppercase` yields for a character that is not ASCII,
/// collected into a string.
pub uninterp spec fn unicode_uppercase(c: char) -> Seq<char>;

/// What `char::to_uppercase` yields for a character, collected into a
/// string: for ASCII the documented mapping (`a`..`z` to `A`..`Z`, every
/// other ASCII character unchanged), otherwise `unicode_uppercase`.
pub open spec fn char_uppercase(c: char) -> Seq<char> {
    if 'a' <= c <= 'z' {
        seq![((c as u32) - 32) as char]
    } else if (c as u32) < 128 {
        seq![c]
    } else {
        unicode_uppercase(c)
    }
}

/// `char::to_uppercase`, collected into a `String` (see `char_uppercase`);
/// the Unicode case tables are left unstated behind `unicode_uppercase`.
#[verifier::external_body]
pub(crate) fn uppercase_of(c: char) -> (r: String)
    ensures
        r@ == char_uppercase(c),
        (c as u32) >= 128 ==> r@ == unicode_uppercase(c),
{
    c.to_uppercase().to_string()
}

/// The name with its first character upper-cased.
pub open spec fn spec_capitalized(name: Seq<char>) -> Seq<char> {
    if name.len() == 0 {
        Seq::empty()
    } else {
        char_uppercase(name[0]) + name.skip(1)
    }
}

/// The name with its first character upper-cased (`demo` gives `Demo`).
pub fn capitalized(name: &str) -> (r: String)
    ensures
        r@ == spec_capitalized(name@),
{
    let c = chars_of(name);
    if c.len() == 0 {
        return String::new();
    }
    let mut r = uppercase_of(c[0]);
    push_range(&mut r, &c, 1, c.len());
    assert(c@.subrange(1, c@.len() as int) =~= name@.skip(1));
    r
}

/// Every character upper-cased (`char::to_uppercase`, in order).
pub open spec fn spec_upper_cased(s: Seq<char>) -> Seq<char>
    decreases s.len(),
{
    if s.len() == 0 {
        Seq::empty()
    } else {
        spec_upper_cased(s.drop_last()) + char_uppercase(s.last())
    }
}

/// The text with every character upper-cased (`xtop_widget_demo` gives
/// `XTOP_WIDGET_DEMO`).
pub fn upper_cased(s: &str) -> (r: String)
    ensures
        r@ == spec_upper_cased(s@),
{
    let c = chars_of(s);
    let mut r = String::new();
    for i in 0..c.len()
        invariant
            c@ == s@,
            r@ == spec_upper_cased(c@.take(i as int)),
    {
        let u = uppercase_of(c[i]);
        r.append(u.as_str());
        proof {
            assert(c@.take(i + 1).drop_last() =~= c@.take(i as int));
        }
    }
    proof {
        assert(c@.take(c@.len() as int) =~= c@);
    }
    r
}

/// The `Cargo.toml` of a scaffolded plugin, part 1 of 3.
pub const PLUGIN_CARGO_TOML_0: &'static str = "[package]\nname = \"xtop-plugin-";

/// The `Cargo.toml` of a scaffolded plugin, part 2 of 3.
pub const PLUGIN_CARGO_TOML_1: &'static str = "\"\nversion = \"0.1.0\"\nedition = \"2021\"\nlicense = \"MIT\"\ndescription = \"xtop plugin: ";

/// The `Cargo.toml` of a scaffolded plugin, part 3 of 3.
pub const PLUGIN_CARGO_TOML_2: &'static str = "\"\n\n[dependencies]\nxtop-plugin-api = { git = \"https://github.com/xtop-cli/api\" }\n";

/// The `Cargo.toml` a plugin scaffold gets.
pub open spec fn spec_plugin_cargo_toml(name: Seq<char>) -> Seq<char> {
    PLUGIN_CARGO_TOML_0@
        + name
        + PLUGIN_CARGO_TOML_1@
        + name
        + PLUGIN_CARGO_TOML_2@
}

/// The `Cargo.toml` a plugin scaffold gets.
pub fn plugin_cargo_toml(name: &str) -> (r: String)
    ensures
        r@ == spec_plugin_cargo_toml(name@),
{
    let r = cat(&[
        PLUGIN_CARGO_TOML_0,
        name,
        PLUGIN_CARGO_TOML_1,
        name,
        PLUGIN_CARGO_TOML_2,
    ]);
    proof {
        reveal_with_fuel(concat_views, 6);
    }
    r
}

/// The `src/lib.rs` of a scaffolded plugin, part 1 of 8.
pub const PLUGIN_LIB_RS_0: &'static str = "//! ";

/// The `src/lib.rs` of a scaffolded plugin, part 2 of 8.
pub const PLUGIN_LIB_RS_1: &'static str = " plugin for xtop.\nuse xtop_plugin_api::{Plugin, PluginCapability, PluginContext, PluginError, PluginManifest};\n\npub struct ";

/// The `src/lib.rs` of a scaffolded plugin, part 3 of 8.
pub const PLUGIN_LIB_RS_2: &'static str = "Plugin;\n\nimpl ";

/// The `src/lib.rs` of a scaffolded plugin, part 4 of 8.
pub const PLUGIN_LIB_RS_3: &'static str = "Plugin {\n    pub fn new() -> Self {\n        Self\n    }\n}\n\nimpl Plugin for ";

/// The `src/lib.rs` of a scaffolded plugin, part 5 of 8.
pub const PLUGIN_LIB_RS_4: &'static str = "Plugin {\n    fn manifest(&self) -> PluginManifest {\n        PluginManifest {\n            id: \"";

/// The `src/lib.rs` of a scaffolded plugin, part 6 of 8.
pub const PLUGIN_LIB_RS_5: &'static str = "\".to_string(),\n            name: \"";

/// The `src/lib.rs` of a scaffolded plugin, part 7 of 8.
pub const PLUGIN_LIB_RS_6: &'static str = "\".to_string(),\n            version: \"0.1.0\".to_string(),\n            description: \"xtop plugin: ";

/// The `src/lib.rs` of a scaffolded plugin, part 8 of 8.
pub const PLUGIN_LIB_RS_7: &'static str = "\".to_string(),\n            capabilities: vec![PluginCapability::ReadSystemInfo],\n        }\n    }\n\n    fn on_tick(&mut self, _ctx: &mut PluginContext) -> Result<(), PluginError> {\n        Ok(())\n    }\n}\n";

/// The `src/lib.rs` a plugin scaffold gets: a plugin type named after the capitalized name, reading system info.
pub open spec fn spec_plugin_lib_rs(name: Seq<char>, cap: Seq<char>) -> Seq<char> {
    PLUGIN_LIB_RS_0@
        + cap
        + PLUGIN_LIB_RS_1@
        + cap
        + PLUGIN_LIB_RS_2@
        + cap
        + PLUGIN_LIB_RS_3@
        + cap
        + PLUGIN_LIB_RS_4@
        + name
        + PLUGIN_LIB_RS_5@
        + cap
        + PLUGIN_LIB_RS_6@
        + name
        + PLUGIN_LIB_RS_7@
}

/// The `src/lib.rs` a plugin scaffold gets: a plugin type named after the capitalized name, reading system info.
pub fn plugin_lib_rs(name: &str) -> (r: String)
    ensures
        r@ == spec_plugin_lib_rs(name@, spec_capitalized(name@)),
{
    let cap = capitalized(name);
    let r = cat(&[
        PLUGIN_LIB_RS_0,
        cap.as_str(),
        PLUGIN_LIB_RS_1,
        cap.as_str(),
        PLUGIN_LIB_RS_2,
        cap.as_str(),
        PLUGIN_LIB_RS_3,
        cap.as_str(),
        PLUGIN_LIB_RS_4,
        name,
        PLUGIN_LIB_RS_5,
        cap.as_str(),
        PLUGIN_LIB_RS_6,
        name,
        PLUGIN_LIB_RS_7,
    ]);
    proof {
        reveal_with_fuel(concat_views, 16);
    }
    r
}

/// The `Cargo.toml` of a scaffolded widget pack, part 1 of 3.
pub const WIDGET_CARGO_TOML_0: &'static str = "[package]\nname = \"xtop-widget-";

/// The `Cargo.toml` of a scaffolded widget pack, part 2 of 3.
pub const WIDGET_CARGO_TOML_1: &'static str = "\"\nversion = \"0.1.0\"\nedition = \"2021\"\nrust-version = \"1.87\"\nlicense = \"MIT\"\ndescription = \"xtop widget pack: ";

/// The `Cargo.toml` of a scaffolded widget pack, part 3 of 3.
pub const WIDGET_CARGO_TOML_2: &'static str = "\"\n\n[dependencies]\nratatui = \"0.30.2\"\nxtop-widget-api = { git = \"https://github.com/xtop-cli/api\" }\nxtop-plugin-api = { git = \"https://github.com/xtop-cli/api\" }\n";

/// The `Cargo.toml` a widget pack scaffold gets.
pub open spec fn spec_widget_cargo_toml(name: Seq<char>) -> Seq<char> {
    WIDGET_CARGO_TOML_0@
        + name
        + WIDGET_CARGO_TOML_1@
        + name
        + WIDGET_CARGO_TOML_2@
}

/// The `Cargo.toml` a widget pack scaffold gets.
pub fn widget_cargo_toml(name: &str) -> (r: String)
    ensures
        r@ == spec_widget_cargo_toml(name@),
{
    let r = cat(&[
        WIDGET_CARGO_TOML_0,
        name,
        WIDGET_CARGO_TOML_1,
        name,
        WIDGET_CARGO_TOML_2,
    ]);
    proof {
        reveal_with_fuel(concat_views, 6);
    }
    r
}

/// The `README.md` of a scaffolded widget pack, part 1 of 5.
pub const WIDGET_README_0: &'static str = "# xtop-widget-";

/// The `README.md` of a scaffolded widget pack, part 2 of 5.
pub const WIDGET_README_1: &'static str = "\n\nA single-widget xtop pack scaffolded by `xtop widget scaffold ";

/// The `README.md` of a scaffolded widget pack, part 3 of 5.
pub const WIDGET_README_2: &'static str = "`.\n\nThe crate registers one widget named `";

/// The `README.md` of a scaffolded widget pack, part 4 of 5.
pub const WIDGET_README_3: &'static str = "` and draws a placeholder\npanel from the live snapshot (process count, CPU and memory gauges).\nReplace the body of `render` in `src/lib.rs` with your own drawing;\nkeep `registry()` as the pack entry point the kernel calls.\n\nInstall it into the kernel with `xtop widget install <repo|path>` and\nenable the `widget-";

/// The `README.md` of a scaffolded widget pack, part 5 of 5.
pub const WIDGET_README_4: &'static str = "` feature to rebuild xtop with it. Authoring\nguidance lives in the widgets repo docs (`docs/authoring.md`).\n";

/// The `README.md` a widget pack scaffold gets.
pub open spec fn spec_widget_readme(name: Seq<char>) -> Seq<char> {
    WIDGET_README_0@
        + name
        + WIDGET_README_1@
        + name
        + WIDGET_README_2@
        + name
        + WIDGET_README_3@
        + name
        + WIDGET_README_4@
}

/// The `README.md` a widget pack scaffold gets.
pub fn widget_readme(name: &str) -> (r: String)
    ensures
        r@ == spec_widget_readme(name@),
{
    let r = cat(&[
        WIDGET_README_0,
        name,
        WIDGET_README_1,
        name,
        WIDGET_README_2,
        name,
        WIDGET_README_3,
        name,
        WIDGET_README_4,
    ]);
    proof {
        reveal_with_fuel(concat_views, 10);
    }
    r
}

/// The `src/lib.rs` of a scaffolded widget pack, part 1 of 5.
pub const WIDGET_LIB_RS_0: &'static str = "//! ";

/// The `src/lib.rs` of a scaffolded widget pack, part 2 of 5.
pub const WIDGET_LIB_RS_1: &'static str = " widget pack for xtop: a single-widget crate scaffolded by\n//! `xtop widget scaffold ";

/// The `src/lib.rs` of a scaffolded widget pack, part 3 of 5.
pub const WIDGET_LIB_RS_2: &'static str = "`.\n//!\n//! The pack registers one widget named `";

/// The `src/lib.rs` of a scaffolded widget pack, part 4 of 5.
pub const WIDGET_LIB_RS_3: &'static str = "` (the name layout files and\n//! the per-widget style config use) and renders a placeholder panel from\n//! real snapshot values — the process count plus CPU/memory gauges — with\n//! theme colors only, so the crate compiles and draws out of the box.\n//! Replace the body of [`render`] with your own drawing while keeping the\n//! `registry()` entry point: the kernel calls it once per pack and resolves\n//! `(pack, widget)` by name at render time.\n\nuse std::collections::HashMap;\nuse std::sync::Arc;\n\nuse ratatui::layout::Rect;\nuse ratatui::style::{Modifier, Style};\nuse ratatui::text::{Line, Span};\nuse ratatui::widgets::{Block, Borders, Paragraph};\nuse ratatui::Frame;\nuse xtop_widget_api::glyph::{border_for, to_color};\nuse xtop_widget_api::{WidgetRenderer, WidgetState};\n\n/// The widget name this pack registers (used in layouts and in\n/// `style.widgets.<name>.pack`).\npub const WIDGET_NAME: &str = \"";

/// The `src/lib.rs` of a scaffolded widget pack, part 5 of 5.
pub const WIDGET_LIB_RS_4: &'static str = "\";\n\n/// Pack entry point: widget name → renderer registry.\npub fn registry() -> HashMap<&'static str, WidgetRenderer> {\n    let mut m: HashMap<&'static str, WidgetRenderer> = HashMap::new();\n    m.insert(WIDGET_NAME, Arc::new(render));\n    m\n}\n\n/// Draw the placeholder panel: real values, theme colors only.\n///\n/// Never panic on small areas or an empty snapshot — the kernel renders this\n/// before the first tick too (the sample is `None` then).\nfn render(f: &mut Frame, state: &dyn WidgetState, area: Rect) {\n    let fg = to_color(*state.theme_fg());\n    let bg = to_color(*state.theme_bg());\n    let accent = to_color(state.theme_palette()[6]);\n    let dim = to_color(state.theme_palette()[8]);\n\n    let block = Block::default()\n        .title(Line::from(vec![Span::styled(\n            format!(\" {WIDGET_NAME} \"),\n            Style::default().fg(accent).add_modifier(Modifier::BOLD),\n        )]))\n        .borders(Borders::ALL)\n        .border_set(border_for(state.borders(WIDGET_NAME)))\n        .style(Style::default().fg(fg).bg(bg));\n    let inner = block.inner(area);\n    f.render_widget(block, area);\n    if inner.height < 3 || inner.width < 12 {\n        return;\n    }\n\n    let Some(snap) = state.snapshot() else {\n        f.render_widget(\n            Paragraph::new(\" waiting for the first sample…\").style(Style::default().fg(fg).bg(bg)),\n            inner,\n        );\n        return;\n    };\n\n    let cpu_avg = if snap.cpus.is_empty() {\n        0.0\n    } else {\n        snap.cpus.iter().map(|c| c.usage).sum::<f64>() / snap.cpus.len() as f64\n    };\n    let alerts = state.alerts();\n    let text = vec![\n        gauge_line(\n            \"CPU\",\n            cpu_avg,\n            alerts.cpu_high,\n            state.theme_palette(),\n            fg,\n            dim,\n            accent,\n        ),\n        gauge_line(\n            \"Mem\",\n            snap.memory.percent,\n            alerts.mem_high,\n            state.theme_palette(),\n            fg,\n            dim,\n            accent,\n        ),\n        Line::from(vec![Span::styled(\n            format!(\" Procs: {}\", snap.processes.len()),\n            Style::default().fg(fg),\n        )]),\n    ];\n    let p = Paragraph::new(text).style(Style::default().fg(fg).bg(bg));\n    f.render_widget(p, inner);\n}\n\n/// One labeled 10-cell gauge line, colored by theme roles only: full cells\n/// use the palette role ramp (slot 1 alert, slot 3 warn, slot 2 good), the\n/// remainder the dim role (slot 8) — never a fixed color literal.\nfn gauge_line(\n    label: &str,\n    percent: f64,\n    alert_at: f64,\n    palette: &[[u8; 3]; 16],\n    fg: ratatui::style::Color,\n    dim: ratatui::style::Color,\n    accent: ratatui::style::Color,\n) -> Line<'static> {\n    let filled = (percent.clamp(0.0, 100.0) / 10.0).round() as usize;\n    let role = if percent >= alert_at {\n        1 // alert role\n    } else if percent >= 50.0 {\n        3 // warn role\n    } else {\n        2 // good role\n    };\n    let fill_color = to_color(palette[role]);\n    Line::from(vec![\n        Span::styled(\n            format!(\" {:<4} {:>3.0}% \", label, percent),\n            Style::default().fg(fg),\n        ),\n        Span::styled(\"█\".repeat(filled), Style::default().fg(fill_color)),\n        Span::styled(\"░\".repeat(10 - filled), Style::default().fg(dim)),\n        Span::styled(\"  \", Style::default().fg(accent)),\n    ])\n}\n";

/// The `src/lib.rs` a widget pack scaffold gets: one widget named after the pack that draws a placeholder panel.
pub open spec fn spec_widget_lib_rs(name: Seq<char>, cap: Seq<char>) -> Seq<char> {
    WIDGET_LIB_RS_0@
        + cap
        + WIDGET_LIB_RS_1@
        + name
        + WIDGET_LIB_RS_2@
        + name
        + WIDGET_LIB_RS_3@
        + name
        + WIDGET_LIB_RS_4@
}

/// The `src/lib.rs` a widget pack scaffold gets: one widget named after the pack that draws a placeholder panel.
pub fn widget_lib_rs(name: &str) -> (r: String)
    ensures
        r@ == spec_widget_lib_rs(name@, spec_capitalized(name@)),
{
    let cap = capitalized(name);
    let r = cat(&[
        WIDGET_LIB_RS_0,
        cap.as_str(),
        WIDGET_LIB_RS_1,
        name,
        WIDGET_LIB_RS_2,
        name,
        WIDGET_LIB_RS_3,
        name,
        WIDGET_LIB_RS_4,
    ]);
    proof {
        reveal_with_fuel(concat_views, 10);
    }
    r
}

} // verus!
