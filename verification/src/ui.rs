//! Server-side rendering of the generator panels: catalogs, their titles and
//! order, and the HTML frame around the per-generator panels.
use vstd::prelude::*;
use vstd::string::*;
use crate::config::{catalog_key, catalog_key_of, wave_label, GeneratorConfig, WaveType};
use crate::text::{
    decimal, decimal_string, push_char, replace_all, replaced, str_eq, trim, trim_end_ws, trim_start_ws, trimmed,
    unicode_white_space,
};

verus! {

/// Number of catalogs with a known title.
pub const CATALOG_COUNT: usize = 15;

/// Name of the `i`-th known catalog, in display order.
pub open spec fn catalog_name(i: int) -> Seq<char> {
    if i == 0 { "temperature"@ }
    else if i == 1 { "pressure"@ }
    else if i == 2 { "level"@ }
    else if i == 3 { "flow"@ }
    else if i == 4 { "vibration"@ }
    else if i == 5 { "speed"@ }
    else if i == 6 { "electrical"@ }
    else if i == 7 { "water"@ }
    else if i == 8 { "climate"@ }
    else if i == 9 { "heating"@ }
    else if i == 10 { "valve"@ }
    else if i == 11 { "weight"@ }
    else if i == 12 { "modbus"@ }
    else if i == 13 { "agronomy"@ }
    else { "livestock"@ }
}

/// Russian title of the `i`-th known catalog.
pub open spec fn catalog_label(i: int) -> Seq<char> {
    if i == 0 { "Температура"@ }
    else if i == 1 { "Давление"@ }
    else if i == 2 { "Уровень"@ }
    else if i == 3 { "Расход"@ }
    else if i == 4 { "Вибрация"@ }
    else if i == 5 { "Скорость"@ }
    else if i == 6 { "Электрика"@ }
    else if i == 7 { "Вода / Водоподготовка"@ }
    else if i == 8 { "Климат"@ }
    else if i == 9 { "Теплоснабжение"@ }
    else if i == 10 { "Клапаны / Состояния"@ }
    else if i == 11 { "Вес"@ }
    else if i == 12 { "Modbus"@ }
    else if i == 13 { "Агрономия"@ }
    else { "Животноводство"@ }
}

/// The known catalog entry `i`: its name and its title.
pub fn catalog_entry(i: usize) -> (e: (&'static str, &'static str))
    requires
        i < CATALOG_COUNT,
    ensures
        e.0@ == catalog_name(i as int),
        e.1@ == catalog_label(i as int),
{
    if i == 0 { ("temperature", "Температура") }
    else if i == 1 { ("pressure", "Давление") }
    else if i == 2 { ("level", "Уровень") }
    else if i == 3 { ("flow", "Расход") }
    else if i == 4 { ("vibration", "Вибрация") }
    else if i == 5 { ("speed", "Скорость") }
    else if i == 6 { ("electrical", "Электрика") }
    else if i == 7 { ("water", "Вода / Водоподготовка") }
    else if i == 8 { ("climate", "Климат") }
    else if i == 9 { ("heating", "Теплоснабжение") }
    else if i == 10 { ("valve", "Клапаны / Состояния") }
    else if i == 11 { ("weight", "Вес") }
    else if i == 12 { ("modbus", "Modbus") }
    else if i == 13 { ("agronomy", "Агрономия") }
    else { ("livestock", "Животноводство") }
}

/// Position of `c` among the known catalogs, searching from entry `i` on.
pub open spec fn catalog_rank_from(c: Seq<char>, i: int) -> Option<int>
    decreases CATALOG_COUNT - i,
{
    if i < 0 || i >= CATALOG_COUNT {
        None
    } else if catalog_name(i) == c {
        Some(i)
    } else {
        catalog_rank_from(c, i + 1)
    }
}

/// Position of `c` among the known catalogs, if it is one.
pub open spec fn catalog_rank(c: Seq<char>) -> Option<int> {
    catalog_rank_from(c, 0)
}

/// The title shown for catalog `c`.
pub open spec fn catalog_title_of(c: Seq<char>) -> Seq<char> {
    match catalog_rank(c) {
        Some(i) => catalog_label(i),
        None => if trimmed(c).len() == 0 { "Без каталога"@ } else { c },
    }
}

/// Position of catalog `c` among the known catalogs, if it is one.
pub fn catalog_position(c: &str) -> (r: Option<usize>)
    ensures
        r matches Some(i) ==> i < CATALOG_COUNT && catalog_name(i as int) == c@ && catalog_rank(c@)
            == Some(i as int),
        r is None ==> catalog_rank(c@) is None,
{
    let mut i: usize = 0;
    while i < CATALOG_COUNT
        invariant
            i <= CATALOG_COUNT,
            catalog_rank(c@) == catalog_rank_from(c@, i as int),
        decreases CATALOG_COUNT - i,
    {
        let e = catalog_entry(i);
        if str_eq(e.0, c) {
            return Some(i);
        }
        i = i + 1;
    }
    None
}

/// Title of a catalog: its Russian title when it is a known catalog, the
/// catalog name itself otherwise, and "Без каталога" for a blank name.
pub fn catalog_title(catalog: &str) -> (t: String)
    ensures
        t@ == catalog_title_of(catalog@),
{
    match catalog_position(catalog) {
        Some(i) => String::from_str(catalog_entry(i).1),
        None => {
            if trim(catalog).unicode_len() == 0 {
                String::from_str("Без каталога")
            } else {
                String::from_str(catalog)
            }
        },
    }
}

/// The HTML escape of one character.
pub open spec fn escape_char(c: char) -> Seq<char> {
    if c == '&' {
        "&amp;"@
    } else if c == '<' {
        "&lt;"@
    } else if c == '>' {
        "&gt;"@
    } else if c == '"' {
        "&quot;"@
    } else {
        seq![c]
    }
}

/// `s` with `&`, `<`, `>` and `"` replaced by their HTML entities.
pub open spec fn escape_html(s: Seq<char>) -> Seq<char>
    decreases s.len(),
{
    if s.len() == 0 {
        Seq::<char>::empty()
    } else {
        escape_html(s.drop_last()) + escape_char(s.last())
    }
}

/// Escape `&`, `<`, `>` and `"` for HTML text and attribute values.
pub fn html_escape(s: &str) -> (r: String)
    ensures
        r@ == escape_html(s@),
{
    let n = s.unicode_len();
    let mut r = String::new();
    let mut i: usize = 0;
    while i < n
        invariant
            n == s@.len(),
            i <= n,
            r@ == escape_html(s@.subrange(0, i as int)),
        decreases n - i,
    {
        let c = s.get_char(i);
        if c == '&' {
            r.append("&amp;");
        } else if c == '<' {
            r.append("&lt;");
        } else if c == '>' {
            r.append("&gt;");
        } else if c == '"' {
            r.append("&quot;");
        } else {
            push_char(&mut r, c);
        }
        assert(s@.subrange(0, i + 1).drop_last() =~= s@.subrange(0, i as int));
        i = i + 1;
    }
    assert(s@.subrange(0, n as int) =~= s@);
    r
}

/// How single characters are escaped: `&` as `&amp;`, `<` as `&lt;`, `>`
/// as `&gt;`, `"` as `&quot;`, every other character as itself.
pub proof fn lemma_escape_chars(c: char)
    ensures
        escape_html(seq!['&']) == "&amp;"@,
        escape_html(seq!['<']) == "&lt;"@,
        escape_html(seq!['>']) == "&gt;"@,
        escape_html(seq!['"']) == "&quot;"@,
        c != '&' && c != '<' && c != '>' && c != '"' ==> escape_html(seq![c]) == seq![c],
{
    assert(escape_html(Seq::<char>::empty()) == Seq::<char>::empty());
    assert(seq!['&'].drop_last() =~= Seq::<char>::empty());
    assert(seq!['<'].drop_last() =~= Seq::<char>::empty());
    assert(seq!['>'].drop_last() =~= Seq::<char>::empty());
    assert(seq!['"'].drop_last() =~= Seq::<char>::empty());
    assert(seq![c].drop_last() =~= Seq::<char>::empty());
    assert(escape_html(seq!['&']) == escape_html(seq!['&'].drop_last()) + escape_char('&'));
    assert(escape_html(seq!['<']) == escape_html(seq!['<'].drop_last()) + escape_char('<'));
    assert(escape_html(seq!['>']) == escape_html(seq!['>'].drop_last()) + escape_char('>'));
    assert(escape_html(seq!['"']) == escape_html(seq!['"'].drop_last()) + escape_char('"'));
    assert(escape_html(seq![c]) == escape_html(seq![c].drop_last()) + escape_char(c));
    assert(Seq::<char>::empty() + "&amp;"@ =~= "&amp;"@);
    assert(Seq::<char>::empty() + "&lt;"@ =~= "&lt;"@);
    assert(Seq::<char>::empty() + "&gt;"@ =~= "&gt;"@);
    assert(Seq::<char>::empty() + "&quot;"@ =~= "&quot;"@);
    assert(Seq::<char>::empty() + seq![c] =~= seq![c]);
}

/// Escaping works character by character: the escape of two texts put
/// together is the two escapes put together.
pub proof fn lemma_escape_concat(a: Seq<char>, b: Seq<char>)
    ensures
        escape_html(a + b) == escape_html(a) + escape_html(b),
    decreases b.len(),
{
    if b.len() == 0 {
        assert(a + b =~= a);
        assert(escape_html(a) + escape_html(b) =~= escape_html(a));
    } else {
        lemma_escape_concat(a, b.drop_last());
        assert((a + b).drop_last() =~= a + b.drop_last());
        assert((a + b).last() == b.last());
        assert(escape_html(a) + escape_html(b) =~= escape_html(a) + escape_html(b.drop_last()) + escape_char(b.last()));
    }
}

/// Escaping leaves no raw `<`, `>` or `"` in the text.
pub proof fn lemma_escape_html_safe(s: Seq<char>)
    ensures
        forall|k: int|
            0 <= k < escape_html(s).len() ==> escape_html(s)[k] != '<' && escape_html(s)[k] != '>'
                && escape_html(s)[k] != '"',
    decreases s.len(),
{
    if s.len() > 0 {
        lemma_escape_html_safe(s.drop_last());
        reveal_strlit("&amp;");
        reveal_strlit("&lt;");
        reveal_strlit("&gt;");
        reveal_strlit("&quot;");
        let a = escape_html(s.drop_last());
        let b = escape_char(s.last());
        assert forall|k: int| 0 <= k < (a + b).len() implies (a + b)[k] != '<' && (a + b)[k] != '>'
            && (a + b)[k] != '"' by {
            if k >= a.len() {
                assert((a + b)[k] == b[k - a.len()]);
            }
        }
    }
}

} // verus!

verus! {

/// The characters of each string of `v`.
pub open spec fn string_views(v: Seq<String>) -> Seq<Seq<char>> {
    v.map_values(|s: String| s@)
}

/// The catalog key of each generator, in order.
pub open spec fn catalog_keys<F>(gens: Seq<GeneratorConfig<F>>) -> Seq<Seq<char>> {
    gens.map_values(|g: GeneratorConfig<F>| catalog_key(g.catalog@))
}

/// The known catalogs among the first `n` of the table that occur in `keys`, in table order.
pub open spec fn known_upto(keys: Seq<Seq<char>>, n: int) -> Seq<Seq<char>>
    decreases n,
{
    if n <= 0 {
        Seq::<Seq<char>>::empty()
    } else if keys.contains(catalog_name(n - 1)) {
        known_upto(keys, n - 1).push(catalog_name(n - 1))
    } else {
        known_upto(keys, n - 1)
    }
}

/// The non-blank catalogs of `keys` that have no known title, each once, in
/// order of first appearance.
pub open spec fn unknown_order(keys: Seq<Seq<char>>) -> Seq<Seq<char>>
    decreases keys.len(),
{
    if keys.len() == 0 {
        Seq::<Seq<char>>::empty()
    } else {
        let u = unknown_order(keys.drop_last());
        let k = keys.last();
        if catalog_rank(k) is None && k.len() > 0 && !u.contains(k) {
            u.push(k)
        } else {
            u
        }
    }
}

/// The blank catalog's block, when some generator has no catalog.
pub open spec fn blank_block(keys: Seq<Seq<char>>) -> Seq<Seq<char>> {
    if keys.contains(Seq::<char>::empty()) {
        seq![Seq::<char>::empty()]
    } else {
        Seq::<Seq<char>>::empty()
    }
}

/// The order of the catalog blocks: the known catalogs in the order of the
/// table, then the other named catalogs in order of first appearance, and
/// the blank catalog always last.
pub open spec fn group_order(keys: Seq<Seq<char>>) -> Seq<Seq<char>> {
    known_upto(keys, CATALOG_COUNT as int) + unknown_order(keys) + blank_block(keys)
}

/// How many of the first `n` keys equal `key`.
pub open spec fn count_key(keys: Seq<Seq<char>>, key: Seq<char>, n: int) -> nat
    decreases n,
{
    if n <= 0 {
        0
    } else if keys[n - 1] == key {
        count_key(keys, key, n - 1) + 1
    } else {
        count_key(keys, key, n - 1)
    }
}

/// The panels of the first `n` generators whose key is `key`, in order.
pub open spec fn members_html(keys: Seq<Seq<char>>, panels: Seq<Seq<char>>, key: Seq<char>, n: int) -> Seq<char>
    decreases n,
{
    if n <= 0 {
        Seq::<char>::empty()
    } else if keys[n - 1] == key {
        members_html(keys, panels, key, n - 1) + panels[n - 1]
    } else {
        members_html(keys, panels, key, n - 1)
    }
}

/// Header of the block of catalog `key` holding `count` generators.
pub open spec fn header_html(key: Seq<char>, count: nat) -> Seq<char> {
    "<div class=\"catalog-block\"><div class=\"catalog-header\"><span>"@ + escape_html(catalog_title_of(key))
        + "</span><span class=\"catalog-topic\">signals/"@ + escape_html(key)
        + "</span><span class=\"catalog-count\">"@ + decimal(count) + "</span></div>"@
}

/// The block of catalog `key`: header, its generators' panels, closing tag.
pub open spec fn block_html(keys: Seq<Seq<char>>, panels: Seq<Seq<char>>, key: Seq<char>) -> Seq<char> {
    header_html(key, count_key(keys, key, keys.len() as int)) + members_html(keys, panels, key, keys.len() as int)
        + "</div>"@
}

/// The blocks of the catalogs in `order`, one after another.
pub open spec fn blocks_html(keys: Seq<Seq<char>>, panels: Seq<Seq<char>>, order: Seq<Seq<char>>) -> Seq<char>
    decreases order.len(),
{
    if order.len() == 0 {
        Seq::<char>::empty()
    } else {
        blocks_html(keys, panels, order.drop_last()) + block_html(keys, panels, order.last())
    }
}

/// The whole panel area for generators with catalog keys `keys` and rendered
/// panels `panels`.
pub open spec fn panels_page(keys: Seq<Seq<char>>, panels: Seq<Seq<char>>) -> Seq<char> {
    if keys.len() == 0 {
        "<div style=\"grid-column:1/-1;text-align:center;padding:30px;color:var(--t3);font-family:JetBrains Mono,monospace;font-size:10px;text-transform:uppercase\">Нет генераторов</div>"@
    } else {
        blocks_html(keys, panels, group_order(keys))
    }
}

/// Whether `s` is one of the strings of `v`.
pub fn contains_string(v: &Vec<String>, s: &str) -> (b: bool)
    ensures
        b == string_views(v@).contains(s@),
{
    let n = v.len();
    let mut i: usize = 0;
    while i < n
        invariant
            n == v@.len(),
            i <= n,
            forall|k: int| 0 <= k < i ==> v@[k]@ != s@,
        decreases n - i,
    {
        if str_eq(v[i].as_str(), s) {
            assert(string_views(v@)[i as int] == s@);
            return true;
        }
        i = i + 1;
    }
    assert forall|k: int| 0 <= k < string_views(v@).len() implies string_views(v@)[k] != s@ by {
        assert(v@[k]@ != s@);
    }
    false
}

/// The catalog key of every generator.
fn keys_of<F>(generators: &Vec<GeneratorConfig<F>>) -> (keys: Vec<String>)
    ensures
        string_views(keys@) == catalog_keys(generators@),
{
    let n = generators.len();
    let mut keys: Vec<String> = Vec::new();
    let mut i: usize = 0;
    while i < n
        invariant
            n == generators@.len(),
            i <= n,
            keys@.len() == i,
            forall|k: int| 0 <= k < i ==> keys@[k]@ == catalog_key(generators@[k].catalog@),
        decreases n - i,
    {
        keys.push(catalog_key_of(generators[i].catalog.as_str()));
        i = i + 1;
    }
    assert(string_views(keys@) =~= catalog_keys(generators@));
    keys
}

/// The order in which the catalog blocks are shown.
fn catalog_order(keys: &Vec<String>) -> (order: Vec<String>)
    ensures
        string_views(order@) == group_order(string_views(keys@)),
{
    let ghost kv = string_views(keys@);
    let mut known: Vec<String> = Vec::new();
    let mut i: usize = 0;
    while i < CATALOG_COUNT
        invariant
            kv == string_views(keys@),
            i <= CATALOG_COUNT,
            string_views(known@) == known_upto(kv, i as int),
        decreases CATALOG_COUNT - i,
    {
        let name = catalog_entry(i).0;
        if contains_string(keys, name) {
            known.push(String::from_str(name));
            assert(string_views(known@) =~= known_upto(kv, i as int).push(catalog_name(i as int)));
        }
        i = i + 1;
    }
    let n = keys.len();
    let mut unknown: Vec<String> = Vec::new();
    let mut j: usize = 0;
    assert(kv.take(0) =~= Seq::<Seq<char>>::empty());
    while j < n
        invariant
            kv == string_views(keys@),
            n == keys@.len(),
            j <= n,
            string_views(unknown@) == unknown_order(kv.take(j as int)),
        decreases n - j,
    {
        let k = keys[j].as_str();
        assert(kv.take(j + 1).drop_last() =~= kv.take(j as int));
        assert(kv.take(j + 1).last() == k@);
        if catalog_position(k).is_none() && k.unicode_len() > 0 && !contains_string(&unknown, k) {
            unknown.push(String::from_str(k));
            assert(string_views(unknown@) =~= unknown_order(kv.take(j as int)).push(k@));
        }
        j = j + 1;
    }
    assert(kv.take(n as int) =~= kv);
    let ghost kn = known@;
    let ghost un = unknown@;
    known.append(&mut unknown);
    assert(string_views(known@) =~= string_views(kn) + string_views(un));
    let ghost ku = known@;
    proof {
        reveal_strlit("");
        assert(""@ =~= Seq::<char>::empty());
    }
    if contains_string(keys, "") {
        known.push(String::new());
        assert(string_views(known@) =~= string_views(ku).push(Seq::<char>::empty()));
        assert(blank_block(kv) == seq![Seq::<char>::empty()]);
    } else {
        assert(blank_block(kv) == Seq::<Seq<char>>::empty());
    }
    assert(string_views(known@) =~= string_views(kn) + string_views(un) + blank_block(kv));
    known
}

/// The block of catalog `key`.
fn catalog_block(keys: &Vec<String>, panels: &Vec<String>, key: &str) -> (b: String)
    requires
        keys@.len() == panels@.len(),
    ensures
        b@ == block_html(string_views(keys@), string_views(panels@), key@),
{
    let ghost kv = string_views(keys@);
    let ghost pv = string_views(panels@);
    let n = keys.len();
    let mut members = String::new();
    let mut count: usize = 0;
    let mut j: usize = 0;
    while j < n
        invariant
            kv == string_views(keys@),
            pv == string_views(panels@),
            n == keys@.len(),
            n == panels@.len(),
            j <= n,
            count <= j,
            count == count_key(kv, key@, j as int),
            members@ == members_html(kv, pv, key@, j as int),
        decreases n - j,
    {
        if str_eq(keys[j].as_str(), key) {
            members.append(panels[j].as_str());
            count = count + 1;
        }
        j = j + 1;
    }
    let mut b = String::from_str(
        "<div class=\"catalog-block\"><div class=\"catalog-header\"><span>",
    );
    let title = html_escape(catalog_title(key).as_str());
    b.append(title.as_str());
    b.append("</span><span class=\"catalog-topic\">signals/");
    let escaped = html_escape(key);
    b.append(escaped.as_str());
    b.append("</span><span class=\"catalog-count\">");
    let digits = decimal_string(count as u64);
    b.append(digits.as_str());
    b.append("</span></div>");
    b.append(members.as_str());
    b.append("</div>");
    b
}

/// HTML of the generator panels, grouped by catalog.  `panels[i]` is the
/// rendered panel of `generators[i]`.  Catalogs with a known title come first
/// in their fixed order, then the other named catalogs in order of first
/// appearance, and the block of generators without a catalog always last;
/// each block lists its generators in their original order.
pub fn render_panels_html<F>(generators: &Vec<GeneratorConfig<F>>, panels: &Vec<String>) -> (html: String)
    requires
        panels@.len() == generators@.len(),
    ensures
        html@ == panels_page(catalog_keys(generators@), string_views(panels@)),
{
    if generators.len() == 0 {
        return String::from_str(
            "<div style=\"grid-column:1/-1;text-align:center;padding:30px;color:var(--t3);font-family:JetBrains Mono,monospace;font-size:10px;text-transform:uppercase\">Нет генераторов</div>",
        );
    }
    let keys = keys_of(generators);
    let order = catalog_order(&keys);
    let ghost kv = string_views(keys@);
    let ghost pv = string_views(panels@);
    let ghost ov = string_views(order@);
    let m = order.len();
    let mut html = String::new();
    let mut t: usize = 0;
    assert(ov.take(0) =~= Seq::<Seq<char>>::empty());
    while t < m
        invariant
            kv == string_views(keys@),
            pv == string_views(panels@),
            ov == string_views(order@),
            keys@.len() == panels@.len(),
            m == order@.len(),
            t <= m,
            html@ == blocks_html(kv, pv, ov.take(t as int)),
        decreases m - t,
    {
        let block = catalog_block(&keys, panels, order[t].as_str());
        html.append(block.as_str());
        assert(ov.take(t + 1).drop_last() =~= ov.take(t as int));
        t = t + 1;
    }
    assert(ov.take(m as int) =~= ov);
    html
}

} // verus!

verus! {

/// The symbol drawn in the corner of a panel for each wave type.
pub open spec fn wave_icon(w: WaveType) -> Seq<char> {
    match w {
        WaveType::Sine => "∿"@,
        WaveType::Sawtooth => "↗"@,
        WaveType::Square => "⊓"@,
        WaveType::Noise => "≈"@,
        WaveType::Random => "?"@,
        WaveType::Constant => "—"@,
    }
}

/// The panel symbols of the wave types: sine "∿", sawtooth "↗", square
/// "⊓", noise "≈", random "?" and constant "—".
pub proof fn lemma_wave_icons()
    ensures
        wave_icon(WaveType::Sine) == "∿"@,
        wave_icon(WaveType::Sawtooth) == "↗"@,
        wave_icon(WaveType::Square) == "⊓"@,
        wave_icon(WaveType::Noise) == "≈"@,
        wave_icon(WaveType::Random) == "?"@,
        wave_icon(WaveType::Constant) == "—"@,
{
}

/// The wave symbol of `w`.
pub fn wave_symbol(w: WaveType) -> (s: &'static str)
    ensures
        s@ == wave_icon(w),
{
    match w {
        WaveType::Sine => "∿",
        WaveType::Sawtooth => "↗",
        WaveType::Square => "⊓",
        WaveType::Noise => "≈",
        WaveType::Random => "?",
        WaveType::Constant => "—",
    }
}

/// The Modbus note in a panel footer: ` · MB:{addr}`, or nothing for address 0.
pub open spec fn modbus_note(addr: u16) -> Seq<char> {
    if addr > 0 {
        " · MB:"@ + decimal(addr as nat)
    } else {
        Seq::<char>::empty()
    }
}

/// Header and value part of the panel of `g`.
pub open spec fn panel_head<F>(g: GeneratorConfig<F>, value: Seq<char>, class: Seq<char>) -> Seq<char> {
    "<div class=\"panel "@ + (if g.enabled { Seq::<char>::empty() } else { "disabled"@ })
        + "\" id=\"pn-"@ + g.id@ + "\" data-edit=\""@ + g.id@
        + "\"><div class=\"panel-header\"><span>"@ + escape_html(g.name@)
        + "</span><span>"@ + escape_html(g.id@)
        + "</span></div><div class=\"panel-value gradient-text "@ + class
        + "\" id=\"pv-"@ + g.id@ + "\">"@ + value
        + "<small> "@ + escape_html(g.unit@) + "</small></div>"@
}

/// Footer of the panel of `g`: topic, wave, interval, Modbus note and signal age.
pub open spec fn panel_footer<F>(g: GeneratorConfig<F>, latency: Seq<char>) -> Seq<char> {
    "<div class=\"panel-footer\">"@ + escape_html(g.topic@)
        + " · "@ + wave_label(g.wave_type) + " "@ + decimal(g.interval_ms as nat) + "ms"@
        + modbus_note(g.modbus_addr)
        + " · <span id=\"lt-"@ + g.id@ + "\">"@ + latency + "</span></div>"@
}

/// Wave icon and the toggle and delete controls of the panel of `g`.
pub open spec fn panel_controls<F>(g: GeneratorConfig<F>) -> Seq<char> {
    "<div class=\"wave-icon\">"@ + wave_icon(g.wave_type)
        + "</div><div class=\"panel-actions\" data-stop=\"1\"><label class=\"toggle\"><input type=\"checkbox\""@
        + (if g.enabled { " checked"@ } else { Seq::<char>::empty() })
        + " data-toggle=\""@ + g.id@
        + "\"><span class=\"toggle-slider\"></span></label><button class=\"pn-action\" data-del=\""@ + g.id@
        + "\">✕</button></div></div>"@
}

/// The panel of generator `g` showing the text `value`, the signal age
/// `latency` and the alarm class `class`.
pub open spec fn panel_markup<F>(g: GeneratorConfig<F>, value: Seq<char>, latency: Seq<char>, class: Seq<char>) -> Seq<char> {
    panel_head(g, value, class) + panel_footer(g, latency) + panel_controls(g)
}

#[verifier::spinoff_prover]
#[verifier::rlimit(40)]
fn append_panel_head<F>(r: &mut String, g: &GeneratorConfig<F>, value: &str, class: &str)
    ensures
        final(r)@ == old(r)@ + panel_head(*g, value@, class@),
{
    let ghost r0 = r@;
    r.append("<div class=\"panel ");
    if !g.enabled {
        r.append("disabled");
    }
    let ghost r1 = r@;
    assert(r1 =~= r0 + "<div class=\"panel "@ + (if g.enabled { Seq::<char>::empty() } else { "disabled"@ }));
    r.append("\" id=\"pn-");
    r.append(g.id.as_str());
    r.append("\" data-edit=\"");
    r.append(g.id.as_str());
    r.append("\"><div class=\"panel-header\"><span>");
    let name = html_escape(g.name.as_str());
    r.append(name.as_str());
    r.append("</span><span>");
    let id = html_escape(g.id.as_str());
    r.append(id.as_str());
    r.append("</span></div><div class=\"panel-value gradient-text ");
    r.append(class);
    r.append("\" id=\"pv-");
    r.append(g.id.as_str());
    r.append("\">");
    r.append(value);
    r.append("<small> ");
    let unit = html_escape(g.unit.as_str());
    r.append(unit.as_str());
    r.append("</small></div>");
    assert(r@ =~= old(r)@ + panel_head(*g, value@, class@));
}

#[verifier::spinoff_prover]
#[verifier::rlimit(40)]
fn append_panel_footer<F>(r: &mut String, g: &GeneratorConfig<F>, latency: &str)
    ensures
        final(r)@ == old(r)@ + panel_footer(*g, latency@),
{
    r.append("<div class=\"panel-footer\">");
    let topic = html_escape(g.topic.as_str());
    r.append(topic.as_str());
    r.append(" · ");
    r.append(g.wave_type.label());
    r.append(" ");
    let interval = decimal_string(g.interval_ms);
    r.append(interval.as_str());
    r.append("ms");
    let ghost r1 = r@;
    if g.modbus_addr > 0 {
        r.append(" · MB:");
        let addr = decimal_string(g.modbus_addr as u64);
        r.append(addr.as_str());
    }
    assert(r@ =~= r1 + modbus_note(g.modbus_addr));
    r.append(" · <span id=\"lt-");
    r.append(g.id.as_str());
    r.append("\">");
    r.append(latency);
    r.append("</span></div>");
    assert(r@ =~= old(r)@ + panel_footer(*g, latency@));
}

#[verifier::spinoff_prover]
#[verifier::rlimit(40)]
fn append_panel_controls<F>(r: &mut String, g: &GeneratorConfig<F>)
    ensures
        final(r)@ == old(r)@ + panel_controls(*g),
{
    r.append("<div class=\"wave-icon\">");
    r.append(wave_symbol(g.wave_type));
    r.append("</div><div class=\"panel-actions\" data-stop=\"1\"><label class=\"toggle\"><input type=\"checkbox\"");
    let ghost r2 = r@;
    if g.enabled {
        r.append(" checked");
    }
    assert(r@ =~= r2 + (if g.enabled { " checked"@ } else { Seq::<char>::empty() }));
    r.append(" data-toggle=\"");
    r.append(g.id.as_str());
    r.append("\"><span class=\"toggle-slider\"></span></label><button class=\"pn-action\" data-del=\"");
    r.append(g.id.as_str());
    r.append("\">✕</button></div></div>");
    assert(r@ =~= old(r)@ + panel_controls(*g));
}

/// HTML of the panel of generator `g`, given the text of its current value,
/// the age of its last signal and its alarm class (empty, `warning` or
/// `alarm`).  Name, id, unit and topic are HTML-escaped.
pub fn panel_html<F>(g: &GeneratorConfig<F>, value: &str, latency: &str, class: &str) -> (html: String)
    ensures
        html@ == panel_markup(*g, value@, latency@, class@),
{
    let mut r = String::new();
    append_panel_head(&mut r, g, value, class);
    append_panel_footer(&mut r, g, latency);
    append_panel_controls(&mut r, g);
    assert(r@ =~= panel_markup(*g, value@, latency@, class@));
    r
}

} // verus!

verus! {

/// The page `template` with its panel placeholder replaced by the panel grid holding `panels_html`.
pub open spec fn page_with_panels(template: Seq<char>, panels_html: Seq<char>) -> Seq<char> {
    replaced(
        template,
        "<!-- PANELS_PLACEHOLDER -->"@,
        "<div class=\"panels-grid\" id=\"panelsGrid\">"@ + panels_html + "</div>"@,
    )
}

/// Put the rendered panels into the index page: every panel placeholder
/// comment becomes the panel grid.
pub fn inject_panels(template: &str, panels_html: &str) -> (page: String)
    ensures
        page@ == page_with_panels(template@, panels_html@),
{
    let mut grid = String::from_str("<div class=\"panels-grid\" id=\"panelsGrid\">");
    grid.append(panels_html);
    grid.append("</div>");
    proof {
        reveal_strlit("<!-- PANELS_PLACEHOLDER -->");
    }
    replace_all(template, "<!-- PANELS_PLACEHOLDER -->", grid.as_str())
}

} // verus!

verus! {

proof fn lemma_name_has_rank(m: int, i: int)
    requires
        0 <= i <= m < CATALOG_COUNT,
    ensures
        catalog_rank_from(catalog_name(m), i) is Some,
    decreases m - i,
{
    if i < m && catalog_name(i) != catalog_name(m) {
        lemma_name_has_rank(m, i + 1);
    }
}

proof fn lemma_known_upto_ranked(keys: Seq<Seq<char>>, n: int)
    requires
        n <= CATALOG_COUNT,
    ensures
        forall|i: int| 0 <= i < known_upto(keys, n).len() ==> catalog_rank(#[trigger] known_upto(keys, n)[i]) is Some,
    decreases n,
{
    if n > 0 {
        lemma_known_upto_ranked(keys, n - 1);
        lemma_name_has_rank(n - 1, 0);
    }
}

proof fn lemma_unknown_order_unranked(keys: Seq<Seq<char>>)
    ensures
        forall|i: int| 0 <= i < unknown_order(keys).len() ==> catalog_rank(#[trigger] unknown_order(keys)[i]) is None,
        forall|i: int| 0 <= i < unknown_order(keys).len() ==> (#[trigger] unknown_order(keys)[i]).len() > 0,
        forall|i: int, j: int|
            0 <= i < j < unknown_order(keys).len() ==> unknown_order(keys)[i] != unknown_order(keys)[j],
    decreases keys.len(),
{
    if keys.len() > 0 {
        lemma_unknown_order_unranked(keys.drop_last());
    }
}

/// The blank catalog has no known title.
pub proof fn lemma_blank_catalog_unranked()
    ensures
        catalog_rank(Seq::<char>::empty()) is None,
{
    reveal_strlit("temperature");
    reveal_strlit("pressure");
    reveal_strlit("level");
    reveal_strlit("flow");
    reveal_strlit("vibration");
    reveal_strlit("speed");
    reveal_strlit("electrical");
    reveal_strlit("water");
    reveal_strlit("climate");
    reveal_strlit("heating");
    reveal_strlit("valve");
    reveal_strlit("weight");
    reveal_strlit("modbus");
    reveal_strlit("agronomy");
    reveal_strlit("livestock");
    let e = Seq::<char>::empty();
    assert forall|i: int| 0 <= i < CATALOG_COUNT implies catalog_name(i).len() > 0 by {
        assert(catalog_name(i).len() > 0);
    }
    lemma_unranked_from(e, 0);
}

proof fn lemma_unranked_from(c: Seq<char>, i: int)
    requires
        0 <= i,
        forall|k: int| i <= k < CATALOG_COUNT ==> catalog_name(k) != c,
    ensures
        catalog_rank_from(c, i) is None,
    decreases CATALOG_COUNT - i,
{
    if i < CATALOG_COUNT {
        lemma_unranked_from(c, i + 1);
    }
}

/// The three parts of the block order: known catalogs, other named
/// catalogs, and the blank catalog.
proof fn lemma_group_order_parts(keys: Seq<Seq<char>>)
    ensures
        ({
            let k = known_upto(keys, CATALOG_COUNT as int);
            let u = unknown_order(keys);
            let o = group_order(keys);
            &&& o.len() == k.len() + u.len() + blank_block(keys).len()
            &&& forall|i: int| 0 <= i < k.len() ==> o[i] == k[i] && catalog_rank(#[trigger] o[i]) is Some
            &&& forall|i: int|
                k.len() <= i < k.len() + u.len() ==> o[i] == u[i - k.len()] && catalog_rank(#[trigger] o[i])
                    is None && o[i].len() > 0
            &&& forall|i: int| k.len() + u.len() <= i < o.len() ==> #[trigger] o[i] == Seq::<char>::empty()
        }),
{
    let k = known_upto(keys, CATALOG_COUNT as int);
    let u = unknown_order(keys);
    let o = group_order(keys);
    lemma_known_upto_ranked(keys, CATALOG_COUNT as int);
    lemma_unknown_order_unranked(keys);
    assert forall|i: int| 0 <= i < k.len() implies o[i] == k[i] && catalog_rank(#[trigger] o[i]) is Some by {
        assert(o[i] == (k + u)[i]);
    }
    assert forall|i: int|
        k.len() <= i < k.len() + u.len() implies o[i] == u[i - k.len()] && catalog_rank(#[trigger] o[i]) is None
            && o[i].len() > 0 by {
        assert(o[i] == (k + u)[i]);
    }
}

/// Panels are grouped by catalog with the known catalogs first: in the block
/// order, every catalog with a known title comes before every catalog
/// without one (the blank catalog among them), and no catalog without a
/// known title has two blocks.
pub proof fn lemma_known_catalogs_first(keys: Seq<Seq<char>>)
    ensures
        forall|i: int, j: int|
            0 <= i < group_order(keys).len() && 0 <= j < group_order(keys).len() && catalog_rank(
                #[trigger] group_order(keys)[i],
            ) is Some && catalog_rank(#[trigger] group_order(keys)[j]) is None ==> i < j,
        forall|i: int, j: int|
            0 <= i < j < group_order(keys).len() && catalog_rank(group_order(keys)[i]) is None ==> group_order(
                keys,
            )[i] != group_order(keys)[j],
{
    let k = known_upto(keys, CATALOG_COUNT as int);
    let u = unknown_order(keys);
    let o = group_order(keys);
    lemma_group_order_parts(keys);
    lemma_unknown_order_unranked(keys);
    lemma_blank_catalog_unranked();
    assert forall|i: int, j: int|
        0 <= i < j < o.len() && catalog_rank(o[i]) is None implies o[i] != o[j] by {
        assert(catalog_rank(o[i]) is None);
        if i < k.len() {
        } else if i < k.len() + u.len() {
            if j < k.len() + u.len() {
                assert(o[i] == u[i - k.len()] && o[j] == u[j - k.len()]);
            } else {
                assert(o[i].len() > 0);
            }
        } else {
            assert(blank_block(keys).len() <= 1);
        }
    }
}

/// Generators without a catalog are shown last: when some generator has a
/// blank catalog, its block is the last one, and no other block is blank.
pub proof fn lemma_blank_catalog_last(keys: Seq<Seq<char>>)
    ensures
        keys.contains(Seq::<char>::empty()) ==> group_order(keys).len() > 0 && group_order(keys).last()
            == Seq::<char>::empty(),
        forall|i: int| 0 <= i < group_order(keys).len() - 1 ==> (#[trigger] group_order(keys)[i]).len() > 0,
        !keys.contains(Seq::<char>::empty()) ==> forall|i: int|
            0 <= i < group_order(keys).len() ==> (#[trigger] group_order(keys)[i]).len() > 0,
{
    let k = known_upto(keys, CATALOG_COUNT as int);
    let u = unknown_order(keys);
    let o = group_order(keys);
    lemma_group_order_parts(keys);
    lemma_blank_catalog_unranked();
    assert forall|i: int| 0 <= i < k.len() implies (#[trigger] o[i]).len() > 0 by {
        if o[i].len() == 0 {
            assert(o[i] =~= Seq::<char>::empty());
        }
    }
}

} // verus!

verus! {

/// The known catalog names are pairwise different.
proof fn lemma_catalog_names_distinct()
    ensures
        forall|i: int, j: int|
            0 <= i < CATALOG_COUNT && 0 <= j < CATALOG_COUNT && i != j ==> catalog_name(i) != catalog_name(j),
{
    reveal_strlit("temperature");
    reveal_strlit("pressure");
    reveal_strlit("level");
    reveal_strlit("flow");
    reveal_strlit("vibration");
    reveal_strlit("speed");
    reveal_strlit("electrical");
    reveal_strlit("water");
    reveal_strlit("climate");
    reveal_strlit("heating");
    reveal_strlit("valve");
    reveal_strlit("weight");
    reveal_strlit("modbus");
    reveal_strlit("agronomy");
    reveal_strlit("livestock");
    assert forall|i: int, j: int|
        0 <= i < CATALOG_COUNT && 0 <= j < CATALOG_COUNT && i != j implies catalog_name(i) != catalog_name(j) by {
        let a = catalog_name(i);
        let b = catalog_name(j);
        if a.len() == b.len() {
            assert(a[0] != b[0] || a[1] != b[1]);
        }
    }
}

} // verus!

verus! {

proof fn lemma_rank_names(c: Seq<char>, i: int)
    requires
        catalog_rank_from(c, i) is Some,
    ensures
        0 <= i <= catalog_rank_from(c, i)->0 < CATALOG_COUNT,
        catalog_name(catalog_rank_from(c, i)->0) == c,
    decreases CATALOG_COUNT - i,
{
    if 0 <= i < CATALOG_COUNT && catalog_name(i) != c {
        lemma_rank_names(c, i + 1);
    }
}

proof fn lemma_known_upto_shape(keys: Seq<Seq<char>>, n: int)
    requires
        0 <= n <= CATALOG_COUNT,
    ensures
        forall|p: int| 0 <= p < known_upto(keys, n).len() ==> exists|m: int| 0 <= m < n && #[trigger] known_upto(keys, n)[p] == catalog_name(m),
        forall|a: int, b: int| 0 <= a < b < known_upto(keys, n).len() ==> known_upto(keys, n)[a] != known_upto(keys, n)[b],
        forall|m: int| 0 <= m < n && keys.contains(catalog_name(m)) ==> known_upto(keys, n).contains(catalog_name(m)),
    decreases n,
{
    if n > 0 {
        lemma_known_upto_shape(keys, n - 1);
        lemma_catalog_names_distinct();
        let prev = known_upto(keys, n - 1);
        let cur = known_upto(keys, n);
        if keys.contains(catalog_name(n - 1)) {
            assert forall|p: int| 0 <= p < prev.len() implies prev[p] != catalog_name(n - 1) by {
                let m = choose|m: int| 0 <= m < n - 1 && prev[p] == catalog_name(m);
            }
            assert forall|m: int| 0 <= m < n && keys.contains(catalog_name(m)) implies cur.contains(catalog_name(m)) by {
                if m < n - 1 {
                    let p = choose|p: int| 0 <= p < prev.len() && prev[p] == catalog_name(m);
                    assert(cur[p] == catalog_name(m));
                } else {
                    assert(cur[prev.len() as int] == catalog_name(m));
                }
            }
            assert forall|p: int| 0 <= p < cur.len() implies exists|m: int| 0 <= m < n && #[trigger] cur[p] == catalog_name(m) by {
                if p < prev.len() {
                    let m = choose|m: int| 0 <= m < n - 1 && prev[p] == catalog_name(m);
                    assert(cur[p] == catalog_name(m));
                } else {
                    assert(cur[p] == catalog_name(n - 1));
                }
            }
        }
    }
}

proof fn lemma_unknown_order_covers(keys: Seq<Seq<char>>, i: int)
    requires
        0 <= i < keys.len(),
        catalog_rank(keys[i]) is None,
        keys[i].len() > 0,
    ensures
        unknown_order(keys).contains(keys[i]),
    decreases keys.len(),
{
    let u = unknown_order(keys.drop_last());
    if i < keys.len() - 1 {
        lemma_unknown_order_covers(keys.drop_last(), i);
        let p = choose|p: int| 0 <= p < u.len() && u[p] == keys.drop_last()[i];
        assert(unknown_order(keys)[p] == keys[i]);
    } else if u.contains(keys[i]) {
        let p = choose|p: int| 0 <= p < u.len() && u[p] == keys[i];
        assert(unknown_order(keys)[p] == keys[i]);
    } else {
        assert(unknown_order(keys)[u.len() as int] == keys[i]);
    }
}

/// Every generator's catalog has exactly one block: each catalog key occurs
/// in the block order, and no catalog occurs twice.
pub proof fn lemma_each_catalog_one_block(keys: Seq<Seq<char>>)
    ensures
        forall|i: int| 0 <= i < keys.len() ==> group_order(keys).contains(#[trigger] keys[i]),
        forall|a: int, b: int| 0 <= a < b < group_order(keys).len() ==> group_order(keys)[a] != group_order(keys)[b],
{
    let k = known_upto(keys, CATALOG_COUNT as int);
    let u = unknown_order(keys);
    let o = group_order(keys);
    lemma_known_upto_shape(keys, CATALOG_COUNT as int);
    lemma_group_order_parts(keys);
    lemma_known_catalogs_first(keys);
    lemma_unknown_order_unranked(keys);
    lemma_blank_catalog_unranked();
    assert forall|i: int| 0 <= i < keys.len() implies o.contains(#[trigger] keys[i]) by {
        match catalog_rank(keys[i]) {
            Some(r) => {
                lemma_rank_names(keys[i], 0);
                assert(keys.contains(catalog_name(r)));
                let p = choose|p: int| 0 <= p < k.len() && k[p] == catalog_name(r);
                assert(o[p] == keys[i]);
            },
            None => {
                if keys[i].len() > 0 {
                    lemma_unknown_order_covers(keys, i);
                    let p = choose|p: int| 0 <= p < u.len() && u[p] == keys[i];
                    assert(o[k.len() + p] == keys[i]);
                } else {
                    assert(keys[i] =~= Seq::<char>::empty());
                    assert(keys.contains(Seq::<char>::empty()));
                    assert(o[(k.len() + u.len()) as int] == keys[i]);
                }
            },
        }
    }
    assert forall|a: int, b: int| 0 <= a < b < o.len() implies o[a] != o[b] by {
        if b < k.len() {
            assert(o[a] == k[a] && o[b] == k[b]);
        } else if a < k.len() {
            assert(catalog_rank(o[a]) is Some);
            assert(catalog_rank(o[b]) is None);
        }
    }
}

/// `c` starts with a lowercase ASCII letter.
pub open spec fn starts_lowercase(c: Seq<char>) -> bool {
    c.len() > 0 && 'a' as u32 <= c[0] as u32 <= 'z' as u32
}

/// Text that neither starts nor ends with whitespace.
pub open spec fn unpadded(s: Seq<char>) -> bool {
    s.len() > 0 && !unicode_white_space(s[0]) && !unicode_white_space(s.last())
}

proof fn lemma_unpadded_trimmed(s: Seq<char>)
    requires
        unpadded(s),
    ensures
        trimmed(s) == s,
{
    assert(trim_start_ws(s) == s);
    assert(trim_end_ws(s) == s);
}

proof fn lemma_title_texts()
    ensures
        forall|i: int| 0 <= i < CATALOG_COUNT ==> starts_lowercase(#[trigger] catalog_name(i)),
        forall|i: int|
            0 <= i < CATALOG_COUNT ==> unpadded(#[trigger] catalog_label(i)) && !starts_lowercase(catalog_label(i)),
        unpadded("Без каталога"@) && !starts_lowercase("Без каталога"@),
{
    reveal_strlit("temperature");
    reveal_strlit("pressure");
    reveal_strlit("level");
    reveal_strlit("flow");
    reveal_strlit("vibration");
    reveal_strlit("speed");
    reveal_strlit("electrical");
    reveal_strlit("water");
    reveal_strlit("climate");
    reveal_strlit("heating");
    reveal_strlit("valve");
    reveal_strlit("weight");
    reveal_strlit("modbus");
    reveal_strlit("agronomy");
    reveal_strlit("livestock");
    reveal_strlit("Температура");
    reveal_strlit("Давление");
    reveal_strlit("Уровень");
    reveal_strlit("Расход");
    reveal_strlit("Вибрация");
    reveal_strlit("Скорость");
    reveal_strlit("Электрика");
    reveal_strlit("Вода / Водоподготовка");
    reveal_strlit("Климат");
    reveal_strlit("Теплоснабжение");
    reveal_strlit("Клапаны / Состояния");
    reveal_strlit("Вес");
    reveal_strlit("Modbus");
    reveal_strlit("Агрономия");
    reveal_strlit("Животноводство");
    reveal_strlit("Без каталога");
}

/// A text that does not start with a lowercase ASCII letter is no known catalog.
proof fn lemma_not_lowercase_unranked(c: Seq<char>)
    requires
        !starts_lowercase(c),
    ensures
        catalog_rank(c) is None,
{
    lemma_title_texts();
    assert forall|k: int| 0 <= k < CATALOG_COUNT implies catalog_name(k) != c by {
        assert(starts_lowercase(catalog_name(k)));
    }
    lemma_unranked_from(c, 0);
}

/// A title is its own title: titling a catalog title gives it back.
pub proof fn lemma_catalog_title_idempotent(c: Seq<char>)
    ensures
        catalog_title_of(catalog_title_of(c)) == catalog_title_of(c),
{
    lemma_title_texts();
    match catalog_rank(c) {
        Some(i) => {
            lemma_rank_names(c, 0);
            let t = catalog_label(i);
            assert(unpadded(t) && !starts_lowercase(t));
            lemma_not_lowercase_unranked(t);
            lemma_unpadded_trimmed(t);
        },
        None => {
            if trimmed(c).len() == 0 {
                let t = "Без каталога"@;
                lemma_not_lowercase_unranked(t);
                lemma_unpadded_trimmed(t);
            }
        },
    }
}

/// A known catalog name is found at its own position in the table.
proof fn lemma_rank_of_name(i: int)
    requires
        0 <= i < CATALOG_COUNT,
    ensures
        catalog_rank(catalog_name(i)) == Some(i),
{
    lemma_catalog_names_distinct();
    lemma_rank_from_name(i, 0);
}

proof fn lemma_rank_from_name(i: int, j: int)
    requires
        0 <= j <= i < CATALOG_COUNT,
        forall|a: int, b: int|
            0 <= a < CATALOG_COUNT && 0 <= b < CATALOG_COUNT && a != b ==> catalog_name(a) != catalog_name(b),
    ensures
        catalog_rank_from(catalog_name(i), j) == Some(i),
    decreases i - j,
{
    if j < i {
        lemma_rank_from_name(i, j + 1);
    }
}

/// The title shown for each known catalog: temperature is "Температура",
/// pressure "Давление", level "Уровень", flow "Расход", vibration
/// "Вибрация", speed "Скорость", electrical "Электрика", water "Вода /
/// Водоподготовка", climate "Климат", heating "Теплоснабжение", valve
/// "Клапаны / Состояния", weight "Вес", modbus "Modbus", agronomy
/// "Агрономия" and livestock "Животноводство".
pub proof fn lemma_catalog_titles()
    ensures
        catalog_title_of("temperature"@) == "Температура"@,
        catalog_title_of("pressure"@) == "Давление"@,
        catalog_title_of("level"@) == "Уровень"@,
        catalog_title_of("flow"@) == "Расход"@,
        catalog_title_of("vibration"@) == "Вибрация"@,
        catalog_title_of("speed"@) == "Скорость"@,
        catalog_title_of("electrical"@) == "Электрика"@,
        catalog_title_of("water"@) == "Вода / Водоподготовка"@,
        catalog_title_of("climate"@) == "Климат"@,
        catalog_title_of("heating"@) == "Теплоснабжение"@,
        catalog_title_of("valve"@) == "Клапаны / Состояния"@,
        catalog_title_of("weight"@) == "Вес"@,
        catalog_title_of("modbus"@) == "Modbus"@,
        catalog_title_of("agronomy"@) == "Агрономия"@,
        catalog_title_of("livestock"@) == "Животноводство"@,
{
    lemma_rank_of_name(0);
    lemma_rank_of_name(1);
    lemma_rank_of_name(2);
    lemma_rank_of_name(3);
    lemma_rank_of_name(4);
    lemma_rank_of_name(5);
    lemma_rank_of_name(6);
    lemma_rank_of_name(7);
    lemma_rank_of_name(8);
    lemma_rank_of_name(9);
    lemma_rank_of_name(10);
    lemma_rank_of_name(11);
    lemma_rank_of_name(12);
    lemma_rank_of_name(13);
    lemma_rank_of_name(14);
}

} // verus!
