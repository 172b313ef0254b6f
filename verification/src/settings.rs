//! The user-preference record: language, theme, display targets, graph
//! appearance flags, the three graph line colors, and the UI state
//! sub-record, together with the setters the command surface exposes and
//! the conversion to the client-facing shape.
//!
//! Every setter mutates the in-memory record only; persisting the record
//! (rendering it with `to_json` and writing the file) is the caller's
//! step, taken after the mutation as the original design prescribes.

use crate::color::{hex_color_bytes, hex_to_rgb, valid_hex_color, ColorParseError};
use crate::textfmt::{ascii_lower, dec_rep, push_char, push_u64};
use vstd::prelude::*;
use vstd::string::*;

verus! {

broadcast use vstd::string::group_string_axioms;

/// The hardware metrics the interface can display.
#[derive(Clone, Copy, Debug, PartialEq, Eq, Structural)]
pub enum HardwareType {
    CPU,
    Memory,
    GPU,
}

impl HardwareType {
    /// The lower-case token this target carries on the wire.
    pub open spec fn spec_token(self) -> Seq<char> {
        match self {
            HardwareType::CPU => "cpu"@,
            HardwareType::Memory => "memory"@,
            HardwareType::GPU => "gpu"@,
        }
    }

    /// The lower-case token this target carries on the wire.
    pub fn token(&self) -> (r: &'static str)
        ensures
            r@ == self.spec_token(),
    {
        match self {
            HardwareType::CPU => "cpu",
            HardwareType::Memory => "memory",
            HardwareType::GPU => "gpu",
        }
    }

    /// The target a wire token names, if any. The token is read without
    /// regard to letter case: the input is folded to lower case first, so
    /// `CPU` and `Cpu` name the CPU target just as `cpu` does.
    pub fn from_token(s: &str) -> (r: Option<HardwareType>)
        ensures
            r == (if ascii_lower(s@) == "cpu"@ {
                Some(HardwareType::CPU)
            } else if ascii_lower(s@) == "memory"@ {
                Some(HardwareType::Memory)
            } else if ascii_lower(s@) == "gpu"@ {
                Some(HardwareType::GPU)
            } else {
                None
            }),
            r matches Some(hw) ==> ascii_lower(s@) == hw.spec_token(),
    {
        proof {
            reveal_strlit("cpu");
            reveal_strlit("memory");
            reveal_strlit("gpu");
            assert("cpu"@.len() == 3);
            assert("memory"@.len() == 6);
            assert("gpu"@.len() == 3);
            assert("cpu"@[0] == 'c' && "gpu"@[0] == 'g');
        }
        let lowered = crate::textfmt::to_ascii_lower(s);
        if crate::textfmt::str_eq(lowered.as_str(), "cpu") {
            Some(HardwareType::CPU)
        } else if crate::textfmt::str_eq(lowered.as_str(), "memory") {
            Some(HardwareType::Memory)
        } else if crate::textfmt::str_eq(lowered.as_str(), "gpu") {
            Some(HardwareType::GPU)
        } else {
            None
        }
    }
}

/// The application version a build configuration reports, or `unknown`
/// where the configuration carries none.
pub fn get_app_version(version: Option<String>) -> (r: String)
    ensures
        version matches Some(v) ==> r@ == v@,
        version is None ==> r@ == "unknown"@,
{
    match version {
        Some(v) => v,
        None => String::from_str("unknown"),
    }
}

/// Whether a window-menu selection opens the settings view: only the
/// `preference` menu item does.
pub fn menu_opens_settings(menu_item_id: &str) -> (r: bool)
    ensures
        r == (menu_item_id@ == "preference"@),
{
    crate::textfmt::str_eq(menu_item_id, "preference")
}

/// The UI state sub-record.
#[derive(Debug)]
pub struct StateSettings {
    pub display: String,
}

/// The three graph line colors, as raw byte channels.
#[derive(Debug)]
pub struct LineGraphColorSettings {
    pub cpu: [u8; 3],
    pub memory: [u8; 3],
    pub gpu: [u8; 3],
}

/// The three graph line colors in the client-facing shape: comma-joined
/// decimal strings.
#[derive(Debug)]
pub struct LineGraphColorStringSettings {
    pub cpu: String,
    pub memory: String,
    pub gpu: String,
}

/// The mathematical content of a settings record.
#[verifier::ext_equal]
pub ghost struct SettingsView {
    pub version: Seq<char>,
    pub language: Seq<char>,
    pub theme: Seq<char>,
    pub display_targets: Seq<HardwareType>,
    pub graph_size: Seq<char>,
    pub line_graph_border: bool,
    pub line_graph_fill: bool,
    pub cpu_color: (u8, u8, u8),
    pub memory_color: (u8, u8, u8),
    pub gpu_color: (u8, u8, u8),
    pub line_graph_mix: bool,
    pub line_graph_show_legend: bool,
    pub line_graph_show_scale: bool,
    pub state_display: Seq<char>,
}

/// The channel triple a color array holds.
pub open spec fn rgb_view(c: Seq<u8>) -> (u8, u8, u8) {
    (c[0], c[1], c[2])
}

/// The user-preference record.
#[derive(Debug)]
pub struct Settings {
    pub(crate) version: String,
    pub(crate) language: String,
    pub(crate) theme: String,
    pub(crate) display_targets: Vec<HardwareType>,
    pub(crate) graph_size: String,
    pub(crate) line_graph_border: bool,
    pub(crate) line_graph_fill: bool,
    pub(crate) line_graph_color: LineGraphColorSettings,
    pub(crate) line_graph_mix: bool,
    pub(crate) line_graph_show_legend: bool,
    pub(crate) line_graph_show_scale: bool,
    pub(crate) state: StateSettings,
}

impl View for Settings {
    type V = SettingsView;

    closed spec fn view(&self) -> SettingsView {
        SettingsView {
            version: self.version@,
            language: self.language@,
            theme: self.theme@,
            display_targets: self.display_targets@,
            graph_size: self.graph_size@,
            line_graph_border: self.line_graph_border,
            line_graph_fill: self.line_graph_fill,
            cpu_color: rgb_view(self.line_graph_color.cpu@),
            memory_color: rgb_view(self.line_graph_color.memory@),
            gpu_color: rgb_view(self.line_graph_color.gpu@),
            line_graph_mix: self.line_graph_mix,
            line_graph_show_legend: self.line_graph_show_legend,
            line_graph_show_scale: self.line_graph_show_scale,
            state_display: self.state.display@,
        }
    }
}

/// How a record's content is made of its fields; the content itself stays
/// abstract outside this crate.
pub(crate) proof fn lemma_settings_view(s: &Settings)
    ensures
        s@ == (SettingsView {
            version: s.version@,
            language: s.language@,
            theme: s.theme@,
            display_targets: s.display_targets@,
            graph_size: s.graph_size@,
            line_graph_border: s.line_graph_border,
            line_graph_fill: s.line_graph_fill,
            cpu_color: rgb_view(s.line_graph_color.cpu@),
            memory_color: rgb_view(s.line_graph_color.memory@),
            gpu_color: rgb_view(s.line_graph_color.gpu@),
            line_graph_mix: s.line_graph_mix,
            line_graph_show_legend: s.line_graph_show_legend,
            line_graph_show_scale: s.line_graph_show_scale,
            state_display: s.state.display@,
        }),
{
}

/// The hardcoded defaults a fresh installation starts from.
pub open spec fn default_settings_view() -> SettingsView {
    SettingsView {
        version: "unknown"@,
        language: "en"@,
        theme: "dark"@,
        display_targets: seq![HardwareType::CPU, HardwareType::Memory, HardwareType::GPU],
        graph_size: "xl"@,
        line_graph_border: true,
        line_graph_fill: true,
        cpu_color: (75, 192, 192),
        memory_color: (255, 99, 132),
        gpu_color: (255, 206, 86),
        line_graph_mix: false,
        line_graph_show_legend: true,
        line_graph_show_scale: false,
        state_display: "dashboard"@,
    }
}

impl Default for Settings {
    /// The hardcoded default record.
    fn default() -> (r: Settings)
        ensures
            r@ == default_settings_view(),
    {
        let mut targets: Vec<HardwareType> = Vec::new();
        targets.push(HardwareType::CPU);
        targets.push(HardwareType::Memory);
        targets.push(HardwareType::GPU);
        let r = Settings {
            version: String::from_str("unknown"),
            language: String::from_str("en"),
            theme: String::from_str("dark"),
            display_targets: targets,
            graph_size: String::from_str("xl"),
            line_graph_border: true,
            line_graph_fill: true,
            line_graph_color: LineGraphColorSettings {
                cpu: [75, 192, 192],
                memory: [255, 99, 132],
                gpu: [255, 206, 86],
            },
            line_graph_mix: false,
            line_graph_show_legend: true,
            line_graph_show_scale: false,
            state: StateSettings { display: String::from_str("dashboard") },
        };
        proof {
            assert(r.display_targets@ =~= default_settings_view().display_targets);
            assert(r.line_graph_color.cpu@[0] == 75);
            assert(r@ =~= default_settings_view());
        }
        r
    }
}

/// The comma-joined decimal rendering of a color triple.
pub open spec fn comma_rgb(c: (u8, u8, u8)) -> Seq<char> {
    dec_rep(c.0 as nat) + seq![','] + dec_rep(c.1 as nat) + seq![','] + dec_rep(c.2 as nat)
}

/// Render a color array as the comma-joined decimal string the client
/// reads.
pub fn rgb_to_comma_string(c: &[u8; 3]) -> (r: String)
    ensures
        r@ == comma_rgb(rgb_view(c@)),
{
    let mut out = String::new();
    push_u64(&mut out, c[0] as u64);
    push_char(&mut out, ',');
    push_u64(&mut out, c[1] as u64);
    push_char(&mut out, ',');
    push_u64(&mut out, c[2] as u64);
    proof {
        assert(out@ =~= comma_rgb(rgb_view(c@)));
    }
    out
}

impl Settings {
    /// A fresh record holding the hardcoded defaults. A caller that has a
    /// persisted record available loads it with `load` or `from_json`.
    pub fn new() -> (r: Settings)
        ensures
            r@ == default_settings_view(),
    {
        Settings::default()
    }

    /// A fresh default record stamped with the application's version
    /// string, where the build configuration reports one; without one the
    /// version reads `unknown`, as in the plain defaults.
    pub fn with_version(version: Option<String>) -> (r: Settings)
        ensures
            version matches Some(v) ==> r@ == (SettingsView {
                version: v@,
                ..default_settings_view()
            }),
            version is None ==> r@ == default_settings_view(),
    {
        let mut r = Settings::default();
        r.version = get_app_version(version);
        r
    }

    pub fn set_language(&mut self, new_lang: String)
        ensures
            final(self)@ == (SettingsView { language: new_lang@, ..old(self)@ }),
    {
        self.language = new_lang;
    }

    pub fn set_theme(&mut self, new_theme: String)
        ensures
            final(self)@ == (SettingsView { theme: new_theme@, ..old(self)@ }),
    {
        self.theme = new_theme;
    }

    pub fn set_display_targets(&mut self, new_targets: Vec<HardwareType>)
        ensures
            final(self)@ == (SettingsView { display_targets: new_targets@, ..old(self)@ }),
    {
        self.display_targets = new_targets;
    }

    pub fn set_graph_size(&mut self, new_size: String)
        ensures
            final(self)@ == (SettingsView { graph_size: new_size@, ..old(self)@ }),
    {
        self.graph_size = new_size;
    }

    pub fn set_line_graph_border(&mut self, new_value: bool)
        ensures
            final(self)@ == (SettingsView { line_graph_border: new_value, ..old(self)@ }),
    {
        self.line_graph_border = new_value;
    }

    pub fn set_line_graph_fill(&mut self, new_value: bool)
        ensures
            final(self)@ == (SettingsView { line_graph_fill: new_value, ..old(self)@ }),
    {
        self.line_graph_fill = new_value;
    }

    /// Set one target's line color from a `#RRGGBB` string. An invalid
    /// string is rejected with no mutation; a valid one replaces that
    /// target's color, and the comma-joined decimal rendering of the new
    /// color is returned for the client.
    pub fn set_line_graph_color(&mut self, key: HardwareType, new_color: String) -> (r: Result<
        String,
        ColorParseError,
    >)
        ensures
            r is Ok <==> valid_hex_color(new_color@),
            r matches Err(_) ==> final(self)@ == old(self)@,
            r matches Ok(s) ==> {
                let rgb = hex_color_bytes(new_color@);
                let triple = (rgb[0], rgb[1], rgb[2]);
                &&& s@ == comma_rgb(triple)
                &&& final(self)@ == (match key {
                    HardwareType::CPU => SettingsView { cpu_color: triple, ..old(self)@ },
                    HardwareType::Memory => SettingsView {
                        memory_color: triple,
                        ..old(self)@
                    },
                    HardwareType::GPU => SettingsView { gpu_color: triple, ..old(self)@ },
                })
            },
    {
        let rgb = match hex_to_rgb(new_color.as_str()) {
            Ok(rgb) => rgb,
            Err(e) => {
                return Err(e);
            },
        };
        match key {
            HardwareType::CPU => {
                self.line_graph_color.cpu = rgb;
                Ok(rgb_to_comma_string(&self.line_graph_color.cpu))
            },
            HardwareType::Memory => {
                self.line_graph_color.memory = rgb;
                Ok(rgb_to_comma_string(&self.line_graph_color.memory))
            },
            HardwareType::GPU => {
                self.line_graph_color.gpu = rgb;
                Ok(rgb_to_comma_string(&self.line_graph_color.gpu))
            },
        }
    }

    pub fn set_line_graph_mix(&mut self, new_value: bool)
        ensures
            final(self)@ == (SettingsView { line_graph_mix: new_value, ..old(self)@ }),
    {
        self.line_graph_mix = new_value;
    }

    pub fn set_line_graph_show_legend(&mut self, new_value: bool)
        ensures
            final(self)@ == (SettingsView { line_graph_show_legend: new_value, ..old(self)@ }),
    {
        self.line_graph_show_legend = new_value;
    }

    pub fn set_line_graph_show_scale(&mut self, new_value: bool)
        ensures
            final(self)@ == (SettingsView { line_graph_show_scale: new_value, ..old(self)@ }),
    {
        self.line_graph_show_scale = new_value;
    }

    /// Set one key of the UI state sub-record. The only key is `display`;
    /// any other key is rejected with no mutation.
    pub fn set_state(&mut self, key: &str, new_value: String) -> (r: Result<(), String>)
        ensures
            r is Ok <==> key@ == "display"@,
            r matches Ok(_) ==> final(self)@ == (SettingsView {
                state_display: new_value@,
                ..old(self)@
            }),
            r matches Err(e) ==> final(self)@ == old(self)@ && e@ == "Invalid key: "@ + key@,
    {
        if crate::textfmt::str_eq(key, "display") {
            self.state.display = new_value;
            Ok(())
        } else {
            let mut msg = String::from_str("Invalid key: ");
            msg.append(key);
            Err(msg)
        }
    }
}

/// The settings record in the shape the client reads: identical fields,
/// except that each color is a comma-joined decimal string.
#[derive(Debug)]
pub struct ClientSettings {
    pub language: String,
    pub theme: String,
    pub display_targets: Vec<HardwareType>,
    pub graph_size: String,
    pub line_graph_border: bool,
    pub line_graph_fill: bool,
    pub line_graph_color: LineGraphColorStringSettings,
    pub line_graph_mix: bool,
    pub line_graph_show_legend: bool,
    pub line_graph_show_scale: bool,
    pub state: StateSettings,
}

impl Settings {
    /// Copy the record into the client-facing shape, rendering each color
    /// as a comma-joined decimal string.
    pub fn to_client_settings(&self) -> (r: ClientSettings)
        ensures
            r.language@ == self@.language,
            r.theme@ == self@.theme,
            r.display_targets@ == self@.display_targets,
            r.graph_size@ == self@.graph_size,
            r.line_graph_border == self@.line_graph_border,
            r.line_graph_fill == self@.line_graph_fill,
            r.line_graph_color.cpu@ == comma_rgb(self@.cpu_color),
            r.line_graph_color.memory@ == comma_rgb(self@.memory_color),
            r.line_graph_color.gpu@ == comma_rgb(self@.gpu_color),
            r.line_graph_mix == self@.line_graph_mix,
            r.line_graph_show_legend == self@.line_graph_show_legend,
            r.line_graph_show_scale == self@.line_graph_show_scale,
            r.state.display@ == self@.state_display,
    {
        let mut targets: Vec<HardwareType> = Vec::new();
        let mut i: usize = 0;
        let n = self.display_targets.len();
        while i < n
            invariant
                i <= n,
                n == self.display_targets@.len(),
                targets@ =~= self.display_targets@.subrange(0, i as int),
            decreases n - i,
        {
            targets.push(self.display_targets[i]);
            proof {
                assert(targets@ =~= self.display_targets@.subrange(0, i + 1 as int));
            }
            i = i + 1;
        }
        proof {
            assert(targets@ =~= self.display_targets@);
        }
        ClientSettings {
            language: self.language.clone(),
            theme: self.theme.clone(),
            display_targets: targets,
            graph_size: self.graph_size.clone(),
            line_graph_border: self.line_graph_border,
            line_graph_fill: self.line_graph_fill,
            line_graph_color: LineGraphColorStringSettings {
                cpu: rgb_to_comma_string(&self.line_graph_color.cpu),
                memory: rgb_to_comma_string(&self.line_graph_color.memory),
                gpu: rgb_to_comma_string(&self.line_graph_color.gpu),
            },
            line_graph_mix: self.line_graph_mix,
            line_graph_show_legend: self.line_graph_show_legend,
            line_graph_show_scale: self.line_graph_show_scale,
            state: StateSettings { display: self.state.display.clone() },
        }
    }
}

impl PartialEq for Settings {
    /// Whether two records hold the same values in every field.
    fn eq(&self, other: &Settings) -> (r: bool) {
        let mut targets_equal = self.display_targets.len() == other.display_targets.len();
        if targets_equal {
            let n = self.display_targets.len();
            let mut i: usize = 0;
            while i < n
                invariant
                    i <= n,
                    n == self.display_targets@.len(),
                    n == other.display_targets@.len(),
                    targets_equal == (forall|j: int|
                        0 <= j < i ==> self.display_targets@[j] == other.display_targets@[j]),
                decreases n - i,
            {
                if self.display_targets[i] != other.display_targets[i] {
                    targets_equal = false;
                }
                i = i + 1;
            }
        }
        proof {
            if targets_equal {
                assert(self.display_targets@ =~= other.display_targets@);
            }
        }
        let r = targets_equal && self.version == other.version && self.language
            == other.language && self.theme == other.theme && self.graph_size
            == other.graph_size && self.line_graph_border == other.line_graph_border
            && self.line_graph_fill == other.line_graph_fill && rgb_eq(
            &self.line_graph_color.cpu,
            &other.line_graph_color.cpu,
        ) && rgb_eq(&self.line_graph_color.memory, &other.line_graph_color.memory) && rgb_eq(
            &self.line_graph_color.gpu,
            &other.line_graph_color.gpu,
        ) && self.line_graph_mix == other.line_graph_mix && self.line_graph_show_legend
            == other.line_graph_show_legend && self.line_graph_show_scale
            == other.line_graph_show_scale && self.state.display == other.state.display;
        proof {
            if r {
                assert(self@ =~~= other@);
            } else {
                if self@ == other@ {
                    assert(self.line_graph_color.cpu@.len() == 3);
                    assert(other.line_graph_color.cpu@.len() == 3);
                    assert(self.line_graph_color.memory@.len() == 3);
                    assert(other.line_graph_color.memory@.len() == 3);
                    assert(self.line_graph_color.gpu@.len() == 3);
                    assert(other.line_graph_color.gpu@.len() == 3);
                    assert(self.line_graph_color.cpu@ =~= other.line_graph_color.cpu@);
                    assert(self.line_graph_color.memory@ =~= other.line_graph_color.memory@);
                    assert(self.line_graph_color.gpu@ =~= other.line_graph_color.gpu@);
                    assert(false);
                }
            }
        }
        r
    }
}

impl vstd::std_specs::cmp::PartialEqSpecImpl for Settings {
    open spec fn obeys_eq_spec() -> bool {
        true
    }

    open spec fn eq_spec(&self, other: &Settings) -> bool {
        self@ == other@
    }
}

/// Whether two color arrays hold the same three bytes.
fn rgb_eq(a: &[u8; 3], b: &[u8; 3]) -> (r: bool)
    ensures
        r == (a@ == b@),
{
    let r = a[0] == b[0] && a[1] == b[1] && a[2] == b[2];
    proof {
        if a@[0] == b@[0] && a@[1] == b@[1] && a@[2] == b@[2] {
            assert(a@ =~= b@);
        }
    }
    r
}

} // verus!
