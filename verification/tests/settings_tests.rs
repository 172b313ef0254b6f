use hardware_monitor::color::ColorParseError;
use hardware_monitor::settings::{get_app_version, menu_opens_settings, HardwareType, Settings};

const DEFAULT_JSON: &str = "{\"version\":\"unknown\",\"language\":\"en\",\"theme\":\"dark\",\
\"displayTargets\":[\"cpu\",\"memory\",\"gpu\"],\"graphSize\":\"xl\",\
\"lineGraphBorder\":true,\"lineGraphFill\":true,\
\"lineGraphColor\":{\"cpu\":[75,192,192],\"memory\":[255,99,132],\"gpu\":[255,206,86]},\
\"lineGraphMix\":false,\"lineGraphShowLegend\":true,\"lineGraphShowScale\":false,\
\"state\":{\"display\":\"dashboard\"}}";

#[test]
fn default_settings_render() {
    let s = Settings::new();
    assert_eq!(s.to_json(), DEFAULT_JSON);
}

#[test]
fn round_trip_of_defaults() {
    let s = Settings::new();
    let text = s.to_json();
    let back = Settings::from_json(&text);
    assert_eq!(back, s);
}

#[test]
fn round_trip_after_mutations() {
    let mut s = Settings::new();
    s.set_language("ja".to_string());
    s.set_theme("light".to_string());
    s.set_display_targets(vec![HardwareType::GPU]);
    s.set_graph_size("sm".to_string());
    s.set_line_graph_border(false);
    s.set_line_graph_fill(false);
    s.set_line_graph_mix(true);
    s.set_line_graph_show_legend(false);
    s.set_line_graph_show_scale(true);
    s.set_state("display", "settings".to_string()).unwrap();
    s.set_line_graph_color(HardwareType::CPU, "#0A0B0C".to_string()).unwrap();
    let back = Settings::from_json(&s.to_json());
    assert_eq!(back, s);
}

#[test]
fn round_trip_preserves_awkward_strings() {
    // quotes, backslashes, newlines and tabs in stored strings survive the
    // write-then-read cycle unchanged
    let mut s = Settings::new();
    s.set_language("say \"hi\"\\now".to_string());
    s.set_theme("line\nbreak\tand\rmore".to_string());
    s.set_graph_size("nul\u{0}byte".to_string());
    s.set_state("display", "café ☕".to_string()).unwrap();
    let back = Settings::from_json(&s.to_json());
    assert_eq!(back, s);
}

#[test]
fn round_trip_with_empty_targets() {
    let mut s = Settings::new();
    s.set_display_targets(Vec::new());
    let back = Settings::from_json(&s.to_json());
    assert_eq!(back, s);
}

#[test]
fn parses_handwritten_text() {
    let text = "{\"version\":\"unknown\",\"language\":\"a\\\"b\\\\c\",\"theme\":\"light\",\
\"displayTargets\":[\"gpu\"],\"graphSize\":\"md\",\
\"lineGraphBorder\":false,\"lineGraphFill\":true,\
\"lineGraphColor\":{\"cpu\":[0,5,250],\"memory\":[255,99,132],\"gpu\":[255,206,86]},\
\"lineGraphMix\":true,\"lineGraphShowLegend\":false,\"lineGraphShowScale\":true,\
\"state\":{\"display\":\"top\\u0009list\"}}";
    let s = Settings::from_json(text);
    let c = s.to_client_settings();
    assert_eq!(c.language, "a\"b\\c");
    assert_eq!(c.theme, "light");
    assert_eq!(c.display_targets, vec![HardwareType::GPU]);
    assert_eq!(c.graph_size, "md");
    assert!(!c.line_graph_border);
    assert!(c.line_graph_fill);
    assert_eq!(c.line_graph_color.cpu, "0,5,250");
    assert!(c.line_graph_mix);
    assert!(!c.line_graph_show_legend);
    assert!(c.line_graph_show_scale);
    assert_eq!(c.state.display, "top\tlist");
}

#[test]
fn corrupt_text_falls_back_to_defaults() {
    assert_eq!(Settings::from_json(""), Settings::new());
    assert_eq!(Settings::from_json("{\"version\":"), Settings::new());
    assert_eq!(Settings::from_json("not json at all"), Settings::new());
    // trailing garbage after a valid object is rejected too
    let mut with_garbage = String::from(DEFAULT_JSON);
    with_garbage.push_str("x");
    assert_eq!(Settings::from_json(&with_garbage), Settings::new());
}

#[test]
fn set_line_graph_color_valid() {
    let mut s = Settings::new();
    let r = s.set_line_graph_color(HardwareType::CPU, "#4BC0C0".to_string());
    assert_eq!(r, Ok("75,192,192".to_string()));
    let client = s.to_client_settings();
    assert_eq!(client.line_graph_color.cpu, "75,192,192");
}

#[test]
fn set_line_graph_color_invalid_leaves_settings_unchanged() {
    let mut s = Settings::new();
    let before = s.to_json();
    assert_eq!(
        s.set_line_graph_color(HardwareType::GPU, "4BC0C0".to_string()),
        Err(ColorParseError::InvalidFormat)
    );
    assert_eq!(
        s.set_line_graph_color(HardwareType::GPU, "#ZZZZZZ".to_string()),
        Err(ColorParseError::InvalidValue)
    );
    assert_eq!(
        s.set_line_graph_color(HardwareType::GPU, "#FFF".to_string()),
        Err(ColorParseError::InvalidFormat)
    );
    assert_eq!(s.to_json(), before);
}

#[test]
fn set_state_rejects_unknown_key() {
    let mut s = Settings::new();
    assert_eq!(
        s.set_state("nonsense", "x".to_string()),
        Err("Invalid key: nonsense".to_string())
    );
    assert!(s.set_state("display", "dashboard".to_string()).is_ok());
}

#[test]
fn client_settings_mirror_the_record() {
    let mut s = Settings::new();
    s.set_language("de".to_string());
    let c = s.to_client_settings();
    assert_eq!(c.language, "de");
    assert_eq!(c.theme, "dark");
    assert_eq!(
        c.display_targets,
        vec![HardwareType::CPU, HardwareType::Memory, HardwareType::GPU]
    );
    assert_eq!(c.graph_size, "xl");
    assert!(c.line_graph_border);
    assert!(c.line_graph_fill);
    assert_eq!(c.line_graph_color.cpu, "75,192,192");
    assert_eq!(c.line_graph_color.memory, "255,99,132");
    assert_eq!(c.line_graph_color.gpu, "255,206,86");
    assert!(!c.line_graph_mix);
    assert!(c.line_graph_show_legend);
    assert!(!c.line_graph_show_scale);
    assert_eq!(c.state.display, "dashboard");
}

#[test]
fn hardware_type_tokens() {
    assert_eq!(HardwareType::CPU.token(), "cpu");
    assert_eq!(HardwareType::Memory.token(), "memory");
    assert_eq!(HardwareType::GPU.token(), "gpu");
    assert_eq!(HardwareType::from_token("cpu"), Some(HardwareType::CPU));
    assert_eq!(HardwareType::from_token("memory"), Some(HardwareType::Memory));
    assert_eq!(HardwareType::from_token("gpu"), Some(HardwareType::GPU));
    assert_eq!(HardwareType::from_token("disk"), None);
}

#[test]
fn hardware_type_tokens_ignore_case() {
    // tokens are read without regard to letter case
    assert_eq!(HardwareType::from_token("CPU"), Some(HardwareType::CPU));
    assert_eq!(HardwareType::from_token("Cpu"), Some(HardwareType::CPU));
    assert_eq!(HardwareType::from_token("MEMORY"), Some(HardwareType::Memory));
    assert_eq!(HardwareType::from_token("Memory"), Some(HardwareType::Memory));
    assert_eq!(HardwareType::from_token("gPu"), Some(HardwareType::GPU));
    assert_eq!(HardwareType::from_token("CPUs"), None);
}

#[test]
fn persisted_targets_parse_in_any_case() {
    let text = DEFAULT_JSON.replace("[\"cpu\",\"memory\",\"gpu\"]", "[\"CPU\",\"Memory\",\"GPU\"]");
    let s = Settings::from_json(&text);
    assert_eq!(
        s.to_client_settings().display_targets,
        vec![HardwareType::CPU, HardwareType::Memory, HardwareType::GPU]
    );
}

#[test]
fn persisted_short_escapes_parse() {
    // the renderer writes \u0009 and friends, but files written with the
    // short escape convention load too
    let text = DEFAULT_JSON.replace("\"dashboard\"", "\"a\\tb\\nc\\rd\\be\\ff\"");
    let s = Settings::from_json(&text);
    assert_eq!(
        s.to_client_settings().state.display,
        "a\tb\nc\rd\u{8}e\u{c}f"
    );
}

#[test]
fn version_stamped_defaults() {
    let stamped = Settings::with_version(Some("2.5.1".to_string()));
    assert!(stamped.to_json().contains("\"version\":\"2.5.1\""));
    assert_eq!(Settings::with_version(None), Settings::new());
    // the stamped record round-trips like any other
    assert_eq!(Settings::from_json(&stamped.to_json()), stamped);
}

#[test]
fn load_overwrites_only_on_valid_text() {
    let mut s = Settings::with_version(Some("3.0.0".to_string()));
    let stamped = Settings::with_version(Some("3.0.0".to_string()));
    // corrupt text leaves the stamped defaults standing
    s.load("{ half a record");
    assert_eq!(s, stamped);
    // a valid persisted record replaces the whole record
    let mut other = Settings::new();
    other.set_theme("light".to_string());
    s.load(&other.to_json());
    assert_eq!(s, other);
}

#[test]
fn menu_selection_opens_settings() {
    assert!(menu_opens_settings("preference"));
    assert!(!menu_opens_settings("quit"));
    assert!(!menu_opens_settings(""));
}

#[test]
fn app_version_fallback() {
    assert_eq!(get_app_version(Some("1.2.3".to_string())), "1.2.3");
    assert_eq!(get_app_version(None), "unknown");
}
