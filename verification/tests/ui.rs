use signal_generator::config::{GeneratorConfig, WaveType};
use signal_generator::ui::{catalog_entry, catalog_position, catalog_title, html_escape, inject_panels, render_panels_html};

fn gen(id: &str, catalog: &str) -> GeneratorConfig<f64> {
    GeneratorConfig {
        id: id.to_string(),
        name: id.to_string(),
        enabled: true,
        topic: String::new(),
        catalog: catalog.to_string(),
        wave_type: WaveType::Sine,
        interval_ms: 1000,
        amplitude: 1.0,
        offset: 0.0,
        frequency: 0.1,
        unit: String::new(),
        quality: 100,
        min: 0.0,
        max: 1.0,
        drift: 0.0,
        spike_prob: 0.0,
        spike_amp: 0.0,
        noise_amp: 0.0,
        deadband: 0.0,
        hysteresis: 0.0,
        stuck_prob: 0.0,
        stuck_duration_ms: 0,
        jitter: 0.0,
        trend: 0.0,
        drop_prob: 0.0,
        degradation_rate: 0.0,
        modbus_addr: 0,
        modbus_fn: 0,
        modbus_type: 0,
        modbus_scale: 1.0,
        modbus_slave: 0,
    }
}

#[test]
fn catalog_titles() {
    assert_eq!(catalog_title("temperature"), "Температура");
    assert_eq!(catalog_title("water"), "Вода / Водоподготовка");
    assert_eq!(catalog_title("livestock"), "Животноводство");
    assert_eq!(catalog_title("custom"), "custom");
    assert_eq!(catalog_title(""), "Без каталога");
    assert_eq!(catalog_title("   "), "Без каталога");
    assert_eq!(catalog_position("modbus"), Some(12));
    assert_eq!(catalog_position("Modbus"), None);
    assert_eq!(catalog_entry(0), ("temperature", "Температура"));
}

#[test]
fn escaping() {
    assert_eq!(html_escape("a<b>&\"c\"'"), "a&lt;b&gt;&amp;&quot;c&quot;'");
    assert_eq!(html_escape("Температура"), "Температура");
    let e = html_escape("<<>>\"\"&");
    assert!(!e.contains('<') && !e.contains('>') && !e.contains('"'));
}

fn header(title: &str, cat: &str, n: usize) -> String {
    format!(
        "<div class=\"catalog-block\"><div class=\"catalog-header\"><span>{}</span><span class=\"catalog-topic\">signals/{}</span><span class=\"catalog-count\">{}</span></div>",
        title, cat, n
    )
}

#[test]
fn panels_are_grouped_and_ordered() {
    let gens = vec![
        gen("a", "zeta"),
        gen("b", " pressure "),
        gen("c", ""),
        gen("d", "/temperature/"),
        gen("e", "zeta"),
        gen("f", "pressure"),
        gen("g", "<x>"),
    ];
    let panels: Vec<String> = gens.iter().map(|g| format!("[{}]", g.id)).collect();
    let html = render_panels_html(&gens, &panels);
    let expected = [
        header("Температура", "temperature", 1) + "[d]</div>",
        header("Давление", "pressure", 2) + "[b][f]</div>",
        header("zeta", "zeta", 2) + "[a][e]</div>",
        header("&lt;x&gt;", "&lt;x&gt;", 1) + "[g]</div>",
        header("Без каталога", "", 1) + "[c]</div>",
    ]
    .concat();
    assert_eq!(html, expected);
}

#[test]
fn blank_catalog_block_comes_last() {
    let gens = vec![gen("a", "  "), gen("b", "zeta"), gen("c", "//"), gen("d", "flow")];
    let panels: Vec<String> = gens.iter().map(|g| format!("[{}]", g.id)).collect();
    let html = render_panels_html(&gens, &panels);
    let expected = [
        header("Расход", "flow", 1) + "[d]</div>",
        header("zeta", "zeta", 1) + "[b]</div>",
        header("Без каталога", "", 2) + "[a][c]</div>",
    ]
    .concat();
    assert_eq!(html, expected);
}

#[test]
fn no_generators_placeholder() {
    let html = render_panels_html::<f64>(&vec![], &vec![]);
    assert!(html.contains("Нет генераторов"));
}

#[test]
fn panels_injected_into_page() {
    let page = inject_panels("<body><!-- PANELS_PLACEHOLDER --></body>", "P");
    assert_eq!(page, "<body><div class=\"panels-grid\" id=\"panelsGrid\">P</div></body>");
    assert_eq!(inject_panels("no placeholder", "P"), "no placeholder");
}

#[test]
fn panel_html_lays_out_an_enabled_generator() {
    let mut g = gen("t1", "temperature");
    g.name = "Temp <A>".to_string();
    g.unit = "°C".to_string();
    g.topic = "plant/t1".to_string();
    g.modbus_addr = 40001;
    let html = signal_generator::ui::panel_html(&g, "21.5", "12ms", "warning");
    let expected = "<div class=\"panel \" id=\"pn-t1\" data-edit=\"t1\"><div class=\"panel-header\"><span>Temp &lt;A&gt;</span><span>t1</span></div><div class=\"panel-value gradient-text warning\" id=\"pv-t1\">21.5<small> °C</small></div><div class=\"panel-footer\">plant/t1 · Sine 1000ms · MB:40001 · <span id=\"lt-t1\">12ms</span></div><div class=\"wave-icon\">∿</div><div class=\"panel-actions\" data-stop=\"1\"><label class=\"toggle\"><input type=\"checkbox\" checked data-toggle=\"t1\"><span class=\"toggle-slider\"></span></label><button class=\"pn-action\" data-del=\"t1\">✕</button></div></div>";
    assert_eq!(html, expected);
}

#[test]
fn panel_html_marks_a_disabled_generator() {
    let mut g = gen("c2", "");
    g.enabled = false;
    g.wave_type = WaveType::Constant;
    g.interval_ms = 250;
    let html = signal_generator::ui::panel_html(&g, "—", "—", "");
    assert!(html.starts_with("<div class=\"panel disabled\" id=\"pn-c2\""));
    assert!(html.contains(" · Constant 250ms · <span id=\"lt-c2\">—</span>"));
    assert!(html.contains("<div class=\"wave-icon\">—</div>"));
    assert!(html.contains("<input type=\"checkbox\" data-toggle=\"c2\">"));
    assert!(!html.contains("MB:"));
}

#[test]
fn catalog_titles_are_their_own_titles() {
    for c in ["temperature", "modbus", "livestock", "", "  ", "zeta", "Температура"] {
        let t = catalog_title(c);
        assert_eq!(catalog_title(&t), t);
    }
    assert_eq!(catalog_title("Modbus"), "Modbus");
    assert_eq!(catalog_title("Без каталога"), "Без каталога");
}
