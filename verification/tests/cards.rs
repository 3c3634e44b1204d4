use notsu::model::{Company, Lang, Profile, Project};
use notsu::svg::companies::Slot;
use notsu::svg::logos::Logos;
use notsu::svg::{companies, contact, hero, icons, now, projects, pulse};
use notsu::theme::{base_style, Fonts};

fn fonts() -> Fonts {
    Fonts { regular_b64: "QUJD
REVG ".to_string(), bold_b64: "R0hJ	Sks=".to_string() }
}

fn lang(name: &str, pct: u8, color: &str) -> Lang {
    Lang { name: name.to_string(), pct, color: color.to_string() }
}

fn profile() -> Profile {
    Profile {
        name: "Ada <Dev> & Co".to_string(),
        handle: "ada".to_string(),
        role: "Staff Engineer".to_string(),
        company: "Acme".to_string(),
        location: "Berlin, Germany".to_string(),
        years: 12,
        commits_year: 4812,
        commits_week: 17,
        current_streak: 9,
        longest_streak: 21,
        followers: 1234567,
        stars: 0,
        weeks: vec![vec![0, 1, 2], vec![3, 4, 5, 6], vec![]],
        week_days: vec![0, 3, 1, 7, 2, 0, 5],
        langs: vec![lang("Rust", 62, "#DEA584"), lang("Go", 25, "#00ADD8"), lang("C<++>", 13, "#f34b7d")],
    }
}

fn company(name: &str, role: &str, when: &str) -> Company {
    Company { name: name.to_string(), role: role.to_string(), when: when.to_string() }
}

fn project(name: &str, icon: &str, desc: &str, label: &str, stack: &[&str]) -> Project {
    Project {
        name: name.to_string(),
        icon: icon.to_string(),
        desc: desc.to_string(),
        label: label.to_string(),
        stack: stack.iter().map(|s| s.to_string()).collect(),
    }
}

fn logos() -> Logos {
    Logos { dup: "AAAA".to_string(), cavemode: "BBBB".to_string(), cattype: "CCCC".to_string(), devpon: "DDDD".to_string() }
}

#[test]
fn base_style_strips_white_space_from_the_fonts() {
    assert_eq!(base_style(&fonts()), "@font-face{font-family:'JBM';font-weight:400;font-style:normal;src:url(data:font/woff2;base64,QUJDREVG) format('woff2');}@font-face{font-family:'JBM';font-weight:700;font-style:normal;src:url(data:font/woff2;base64,R0hJSks=) format('woff2');}text,tspan{font-family:'JBM','SFMono-Regular',Menlo,monospace;}@media (prefers-reduced-motion: reduce){*{animation:none!important;opacity:1!important;}.type{clip-path:none!important;}}");
}

#[test]
fn hero_card() {
    assert_eq!(hero::render(&profile(), &fonts()), "<svg xmlns=\"http://www.w3.org/2000/svg\" width=\"780\" height=\"250\" viewBox=\"0 0 780 250\" role=\"img\" aria-label=\"Ada &lt;Dev&gt; &amp; Co — Staff Engineer at Acme. 4,812 commits, 9 day streak.\"><defs><linearGradient id=\"card\" x1=\"0\" y1=\"0\" x2=\"0\" y2=\"1\"><stop offset=\"0\" stop-color=\"#11151F\"/><stop offset=\"1\" stop-color=\"#0E121B\"/></linearGradient><style>@font-face{font-family:'JBM';font-weight:400;font-style:normal;src:url(data:font/woff2;base64,QUJDREVG) format('woff2');}@font-face{font-family:'JBM';font-weight:700;font-style:normal;src:url(data:font/woff2;base64,R0hJSks=) format('woff2');}text,tspan{font-family:'JBM','SFMono-Regular',Menlo,monospace;}@media (prefers-reduced-motion: reduce){*{animation:none!important;opacity:1!important;}.type{clip-path:none!important;}}.ln{opacity:0;transform-box:fill-box;animation:rise .5s ease both;}.type{clip-path:inset(0 100% 0 0);}.caret{opacity:0;animation:blink 1.05s steps(1) infinite;}@keyframes rise{from{opacity:0;transform:translateY(5px);}to{opacity:1;transform:translateY(0);}}@keyframes type{from{clip-path:inset(0 100% 0 0);}to{clip-path:inset(0 0 0 0);}}@keyframes blink{0%,50%{opacity:1;}51%,100%{opacity:0;}}</style></defs><rect x=\"1\" y=\"1\" width=\"778\" height=\"248\" rx=\"14\" fill=\"url(#card)\" stroke=\"#1E2430\"/><rect x=\"1\" y=\"1\" width=\"778\" height=\"40\" rx=\"14\" fill=\"#0C1017\"/><rect x=\"1\" y=\"27\" width=\"778\" height=\"14\" fill=\"#0C1017\"/><line x1=\"1\" y1=\"41\" x2=\"780\" y2=\"41\" stroke=\"#1E2430\"/><circle cx=\"24\" cy=\"21\" r=\"5.5\" fill=\"#FF5F56\"/><circle cx=\"42\" cy=\"21\" r=\"5.5\" fill=\"#FFBD2E\"/><circle cx=\"60\" cy=\"21\" r=\"5.5\" fill=\"#27C93F\"/><text x=\"80\" y=\"25\" font-size=\"12\" fill=\"#586274\">notsu@github — zsh</text><text x=\"28\" y=\"78\" font-size=\"14\" class=\"cmd type\" style=\"animation:type .9s steps(23) both\"><tspan fill=\"#E4572E\" font-weight=\"700\">$ </tspan><tspan fill=\"#E6EDF3\" font-weight=\"400\">cargo run --bin notsu</tspan></text><text x=\"28\" y=\"104\" font-size=\"14\" class=\"ln\" style=\"animation-delay:1.05s\"><tspan fill=\"#8B95A1\" font-weight=\"400\">   Compiling </tspan><tspan fill=\"#FFFFFF\" font-weight=\"700\">identity</tspan><tspan fill=\"#8B95A1\" font-weight=\"400\"> v4.0.0 (github.com/notsu)</tspan></text><text x=\"28\" y=\"129\" font-size=\"14\" class=\"ln\" style=\"animation-delay:1.4s\"><tspan fill=\"#E4572E\" font-weight=\"700\">   ▸ </tspan><tspan fill=\"#FFFFFF\" font-weight=\"700\">Ada &lt;Dev&gt; &amp; Co</tspan><tspan fill=\"#8B95A1\" font-weight=\"400\"> — </tspan><tspan fill=\"#E6EDF3\" font-weight=\"400\">Staff Engineer</tspan><tspan fill=\"#8B95A1\" font-weight=\"400\"> @ </tspan><tspan fill=\"#E4572E\" font-weight=\"700\">Acme</tspan><tspan fill=\"#3FB950\" font-weight=\"700\">  ✓</tspan></text><text x=\"28\" y=\"154\" font-size=\"14\" class=\"ln\" style=\"animation-delay:1.75s\"><tspan fill=\"#E4572E\" font-weight=\"700\">   ▸ </tspan><tspan fill=\"#56B6C2\" font-weight=\"400\">Rust</tspan><tspan fill=\"#8B95A1\" font-weight=\"400\"> · </tspan><tspan fill=\"#56B6C2\" font-weight=\"400\">Go</tspan><tspan fill=\"#8B95A1\" font-weight=\"400\"> · distributed systems · DDD · </tspan><tspan fill=\"#8B95A1\" font-weight=\"400\">12y, self-taught</tspan><tspan fill=\"#3FB950\" font-weight=\"700\">  ✓</tspan></text><text x=\"28\" y=\"179\" font-size=\"14\" class=\"ln\" style=\"animation-delay:2.1s\"><tspan fill=\"#E4572E\" font-weight=\"700\">   ▸ </tspan><tspan fill=\"#E6EDF3\" font-weight=\"400\">Berlin, Germany</tspan><tspan fill=\"#8B95A1\" font-weight=\"400\"> · shipping since 2009</tspan><tspan fill=\"#3FB950\" font-weight=\"700\">  ✓</tspan></text><text x=\"28\" y=\"204\" font-size=\"14\" class=\"ln\" style=\"animation-delay:2.45s\"><tspan fill=\"#8B95A1\" font-weight=\"400\">    Finished </tspan><tspan fill=\"#3FB950\" font-weight=\"700\">`ship`</tspan><tspan fill=\"#8B95A1\" font-weight=\"400\"> profile [optimized]</tspan></text><line x1=\"28\" y1=\"219\" x2=\"752\" y2=\"219\" stroke=\"#222B39\" stroke-width=\"1\" stroke-dasharray=\"3 3\" class=\"ln\" style=\"animation-delay:2.7s\"/><text x=\"28\" y=\"237\" font-size=\"13\" class=\"ln\" style=\"animation-delay:2.8s\"><tspan fill=\"#8B95A1\" font-weight=\"400\">live  </tspan><tspan fill=\"#E6EDF3\" font-weight=\"700\">4,812</tspan><tspan fill=\"#8B95A1\" font-weight=\"400\"> commits · </tspan><tspan fill=\"#E6EDF3\" font-weight=\"700\">9</tspan><tspan fill=\"#8B95A1\" font-weight=\"400\">d streak · </tspan><tspan fill=\"#E6EDF3\" font-weight=\"700\">1,234,567</tspan><tspan fill=\"#8B95A1\" font-weight=\"400\"> followers · </tspan><tspan fill=\"#E6EDF3\" font-weight=\"700\">0</tspan><tspan fill=\"#E4572E\" font-weight=\"700\">★</tspan></text><rect x=\"518\" y=\"226\" width=\"8\" height=\"15\" fill=\"#E4572E\" class=\"caret\" style=\"animation-delay:3.0s\"/></svg>");
}

#[test]
fn pulse_card() {
    assert_eq!(pulse::render(&profile(), &fonts()), "<svg xmlns=\"http://www.w3.org/2000/svg\" width=\"780\" height=\"190\" viewBox=\"0 0 780 190\" role=\"img\" aria-label=\"Contribution heatmap and top languages for notsu.\"><defs><style>@font-face{font-family:'JBM';font-weight:400;font-style:normal;src:url(data:font/woff2;base64,QUJDREVG) format('woff2');}@font-face{font-family:'JBM';font-weight:700;font-style:normal;src:url(data:font/woff2;base64,R0hJSks=) format('woff2');}text,tspan{font-family:'JBM','SFMono-Regular',Menlo,monospace;}@media (prefers-reduced-motion: reduce){*{animation:none!important;opacity:1!important;}.type{clip-path:none!important;}}.cell{opacity:0;transform:scale(.4);transform-box:fill-box;transform-origin:center;animation:cell .4s ease forwards;}.bar{transform:scaleX(0);transform-box:fill-box;transform-origin:left center;animation:grow 1s cubic-bezier(.2,.8,.2,1) forwards;}@keyframes cell{to{opacity:1;transform:scale(1);}}@keyframes grow{to{transform:scaleX(1);}}</style></defs><rect x=\"1\" y=\"1\" width=\"468\" height=\"188\" rx=\"14\" fill=\"#11151F\" stroke=\"#1E2430\"/><text x=\"21\" y=\"32\" font-size=\"11.5\" letter-spacing=\"0.8\" fill=\"#8B95A1\" font-weight=\"700\">CONTRIBUTION</text><text x=\"449\" y=\"32\" font-size=\"11.5\" letter-spacing=\"0.8\" fill=\"#E4572E\" font-weight=\"700\" text-anchor=\"end\">52 WEEKS</text><rect x=\"21.0\" y=\"64.0\" width=\"6.4\" height=\"6.4\" rx=\"1.4\" fill=\"#161B24\" class=\"cell\" style=\"animation-delay:0ms\"/><rect x=\"21.0\" y=\"72.0\" width=\"6.4\" height=\"6.4\" rx=\"1.4\" fill=\"#3A2418\" class=\"cell\" style=\"animation-delay:4ms\"/><rect x=\"21.0\" y=\"80.1\" width=\"6.4\" height=\"6.4\" rx=\"1.4\" fill=\"#7A3A1E\" class=\"cell\" style=\"animation-delay:8ms\"/><rect x=\"29.0\" y=\"64.0\" width=\"6.4\" height=\"6.4\" rx=\"1.4\" fill=\"#C04A1F\" class=\"cell\" style=\"animation-delay:14ms\"/><rect x=\"29.0\" y=\"72.0\" width=\"6.4\" height=\"6.4\" rx=\"1.4\" fill=\"#E4572E\" class=\"cell\" style=\"animation-delay:18ms\"/><rect x=\"29.0\" y=\"80.1\" width=\"6.4\" height=\"6.4\" rx=\"1.4\" fill=\"#E4572E\" class=\"cell\" style=\"animation-delay:22ms\"/><rect x=\"29.0\" y=\"88.1\" width=\"6.4\" height=\"6.4\" rx=\"1.4\" fill=\"#E4572E\" class=\"cell\" style=\"animation-delay:26ms\"/><text x=\"21\" y=\"160\" font-size=\"10.5\" fill=\"#8B95A1\">less</text><rect x=\"55.0\" y=\"152.0\" width=\"9\" height=\"9\" rx=\"2\" fill=\"#161B24\"/><rect x=\"67.0\" y=\"152.0\" width=\"9\" height=\"9\" rx=\"2\" fill=\"#3A2418\"/><rect x=\"79.0\" y=\"152.0\" width=\"9\" height=\"9\" rx=\"2\" fill=\"#7A3A1E\"/><rect x=\"91.0\" y=\"152.0\" width=\"9\" height=\"9\" rx=\"2\" fill=\"#C04A1F\"/><rect x=\"103.0\" y=\"152.0\" width=\"9\" height=\"9\" rx=\"2\" fill=\"#E4572E\"/><text x=\"121\" y=\"160\" font-size=\"10.5\" fill=\"#8B95A1\">more</text><rect x=\"482\" y=\"1\" width=\"297\" height=\"188\" rx=\"14\" fill=\"#11151F\" stroke=\"#1E2430\"/><text x=\"502\" y=\"32\" font-size=\"11.5\" letter-spacing=\"0.8\" fill=\"#8B95A1\" font-weight=\"700\">TOP LANGUAGES</text><text x=\"759\" y=\"32\" font-size=\"11.5\" letter-spacing=\"0.8\" fill=\"#E4572E\" font-weight=\"700\" text-anchor=\"end\">BY BYTES</text><text x=\"502\" y=\"62.0\" font-size=\"12.5\" fill=\"#E6EDF3\">Rust</text><rect x=\"586.0\" y=\"53.5\" width=\"120\" height=\"7\" rx=\"3.5\" fill=\"#0C1017\"/><rect x=\"586.0\" y=\"53.5\" width=\"120.0\" height=\"7\" rx=\"3.5\" fill=\"#DEA584\" class=\"bar\" style=\"animation-delay:0.25s\"/><text x=\"718.0\" y=\"62.0\" font-size=\"12\" fill=\"#8B95A1\">62%</text><text x=\"502\" y=\"85.0\" font-size=\"12.5\" fill=\"#E6EDF3\">Go</text><rect x=\"586.0\" y=\"76.5\" width=\"120\" height=\"7\" rx=\"3.5\" fill=\"#0C1017\"/><rect x=\"586.0\" y=\"76.5\" width=\"48.4\" height=\"7\" rx=\"3.5\" fill=\"#00ADD8\" class=\"bar\" style=\"animation-delay:0.37s\"/><text x=\"718.0\" y=\"85.0\" font-size=\"12\" fill=\"#8B95A1\">25%</text><text x=\"502\" y=\"108.0\" font-size=\"12.5\" fill=\"#E6EDF3\">C&lt;++&gt;</text><rect x=\"586.0\" y=\"99.5\" width=\"120\" height=\"7\" rx=\"3.5\" fill=\"#0C1017\"/><rect x=\"586.0\" y=\"99.5\" width=\"25.2\" height=\"7\" rx=\"3.5\" fill=\"#f34b7d\" class=\"bar\" style=\"animation-delay:0.49s\"/><text x=\"718.0\" y=\"108.0\" font-size=\"12\" fill=\"#8B95A1\">13%</text></svg>");
}

#[test]
fn now_card() {
    assert_eq!(now::render(&profile(), &fonts()), "<svg xmlns=\"http://www.w3.org/2000/svg\" width=\"780\" height=\"182\" viewBox=\"0 0 780 182\" role=\"img\" aria-label=\"Now: I'm heads-down on something new.. 17 commits this week · 9-day streak.\"><defs><style>@font-face{font-family:'JBM';font-weight:400;font-style:normal;src:url(data:font/woff2;base64,QUJDREVG) format('woff2');}@font-face{font-family:'JBM';font-weight:700;font-style:normal;src:url(data:font/woff2;base64,R0hJSks=) format('woff2');}text,tspan{font-family:'JBM','SFMono-Regular',Menlo,monospace;}@media (prefers-reduced-motion: reduce){*{animation:none!important;opacity:1!important;}.type{clip-path:none!important;}}.type{clip-path:inset(0 100% 0 0);animation:type 1.4s steps(32) .3s both;}.dot{animation:pulse 1.6s ease-in-out infinite;transform-box:fill-box;transform-origin:center;}.ring{animation:ring 1.6s ease-out infinite;transform-box:fill-box;transform-origin:center;}.bar{transform:scaleY(0);transform-box:fill-box;transform-origin:bottom;animation:grow .5s cubic-bezier(.2,.8,.2,1) both;}@keyframes type{to{clip-path:inset(0 0 0 0);}}@keyframes pulse{0%,100%{opacity:1;}50%{opacity:.4;}}@keyframes ring{0%{opacity:.6;transform:scale(.6);}100%{opacity:0;transform:scale(2.4);}}@keyframes grow{to{transform:scaleY(1);}}</style></defs><rect x=\"1\" y=\"1\" width=\"778\" height=\"180\" rx=\"14\" fill=\"#11151F\" stroke=\"#1E2430\"/><g transform=\"translate(20.0 22.0) scale(0.917)\" fill=\"none\" stroke=\"#E4572E\" stroke-width=\"1.9\" stroke-linecap=\"round\" stroke-linejoin=\"round\"><circle cx=\"12\" cy=\"12\" r=\"2.2\"/><path d=\"M8.2 8.2a5.6 5.6 0 0 0 0 7.6M15.8 8.2a5.6 5.6 0 0 1 0 7.6M5.5 5.5a9.4 9.4 0 0 0 0 13M18.5 5.5a9.4 9.4 0 0 1 0 13\"/></g><text x=\"52\" y=\"38\" font-size=\"14\" font-weight=\"700\" fill=\"#E6EDF3\">NOW</text><text x=\"90\" y=\"38\" font-size=\"12\" fill=\"#8B95A1\">// what I'm building</text><circle cx=\"692\" cy=\"33\" r=\"12\" fill=\"#E4572E\" opacity=\"0.25\" class=\"ring\"/><circle cx=\"692\" cy=\"33\" r=\"4\" fill=\"#E4572E\" class=\"dot\"/><text x=\"758\" y=\"37\" font-size=\"11\" font-weight=\"700\" fill=\"#E4572E\" text-anchor=\"end\">LIVE</text><text x=\"26\" y=\"82\" font-size=\"20\" font-weight=\"800\" fill=\"#FFFFFF\" class=\"type\">I'm heads-down on something new.</text><text x=\"26\" y=\"112\" font-size=\"13.5\" fill=\"#56B6C2\">▸ <tspan fill=\"#8B95A1\">these days:</tspan> <tspan fill=\"#E6EDF3\">Rust · Go · a dash of AI</tspan></text><text x=\"26\" y=\"136\" font-size=\"13\" fill=\"#8B95A1\">Can't say what yet — but it's keeping me up at night (the good kind).</text><text x=\"26\" y=\"162\" font-size=\"12.5\" fill=\"#E4572E\">◆ <tspan fill=\"#E6EDF3\" font-weight=\"700\">17 commits this week · 9-day streak</tspan></text><text x=\"584.0\" y=\"78\" font-size=\"10.5\" letter-spacing=\"0.6\" fill=\"#8B95A1\">COMMITS · LAST 7 DAYS</text><rect x=\"584.0\" y=\"142.0\" width=\"18\" height=\"8.0\" rx=\"3\" fill=\"#E4572E\" opacity=\"0.4\" class=\"bar\" style=\"animation-delay:300ms\"/><rect x=\"610.0\" y=\"118.9\" width=\"18\" height=\"31.1\" rx=\"3\" fill=\"#E4572E\" opacity=\"0.4\" class=\"bar\" style=\"animation-delay:380ms\"/><rect x=\"636.0\" y=\"134.3\" width=\"18\" height=\"15.7\" rx=\"3\" fill=\"#E4572E\" opacity=\"0.4\" class=\"bar\" style=\"animation-delay:460ms\"/><rect x=\"662.0\" y=\"88.0\" width=\"18\" height=\"62.0\" rx=\"3\" fill=\"#E4572E\" opacity=\"1\" class=\"bar\" style=\"animation-delay:540ms\"/><rect x=\"688.0\" y=\"126.6\" width=\"18\" height=\"23.4\" rx=\"3\" fill=\"#E4572E\" opacity=\"0.4\" class=\"bar\" style=\"animation-delay:620ms\"/><rect x=\"714.0\" y=\"142.0\" width=\"18\" height=\"8.0\" rx=\"3\" fill=\"#E4572E\" opacity=\"0.4\" class=\"bar\" style=\"animation-delay:700ms\"/><rect x=\"740.0\" y=\"103.4\" width=\"18\" height=\"46.6\" rx=\"3\" fill=\"#E4572E\" opacity=\"0.4\" class=\"bar\" style=\"animation-delay:780ms\"/></svg>");
}

#[test]
fn now_card_without_languages() {
    let mut p = profile();
    p.langs.clear();
    p.week_days.clear();
    let s = now::render(&p, &fonts());
    assert!(s.contains("<tspan fill=\"#E6EDF3\">code · a dash of AI</tspan>"));
    assert!(!s.contains("COMMITS · LAST 7 DAYS"));
}

#[test]
fn contact_button() {
    assert_eq!(contact::button("open notsu.io", "globe", &fonts()), "<svg xmlns=\"http://www.w3.org/2000/svg\" width=\"199\" height=\"44\" viewBox=\"0 0 199 44\" role=\"img\" aria-label=\"open notsu.io\"><defs><style>@font-face{font-family:'JBM';font-weight:400;font-style:normal;src:url(data:font/woff2;base64,QUJDREVG) format('woff2');}@font-face{font-family:'JBM';font-weight:700;font-style:normal;src:url(data:font/woff2;base64,R0hJSks=) format('woff2');}text,tspan{font-family:'JBM','SFMono-Regular',Menlo,monospace;}@media (prefers-reduced-motion: reduce){*{animation:none!important;opacity:1!important;}.type{clip-path:none!important;}}</style></defs><rect x=\"1\" y=\"1\" width=\"197.0\" height=\"42.0\" rx=\"10\" fill=\"#11151F\" stroke=\"#1E2430\"/><text x=\"16\" y=\"27.0\" font-size=\"15\" font-weight=\"800\" fill=\"#E4572E\">$</text><text x=\"32\" y=\"27.0\" font-size=\"14\" fill=\"#E6EDF3\">open notsu.io</text><g transform=\"translate(169.0 11.0) scale(0.917)\" fill=\"none\" stroke=\"#8B95A1\" stroke-width=\"1.9\" stroke-linecap=\"round\" stroke-linejoin=\"round\"><circle cx=\"12\" cy=\"12\" r=\"9\"/><path d=\"M3 12h18M12 3c3 3.6 3 14.4 0 18M12 3c-3 3.6-3 14.4 0 18\"/></g></svg>");
}

/// Card geometry as `f32` arithmetic, printed the way `f32` prints.
fn slots(count: usize) -> Vec<Slot> {
    let n = count.max(1) as f32;
    let card_w = (780.0f32 - 2.0 - (n - 1.0) * 12.0) / n;
    (0..count)
        .map(|i| {
            let x = 1.0 + i as f32 * (card_w + 12.0);
            let inner = x + 16.0;
            let delay = 0.15 + i as f32 * 0.1;
            Slot {
                x: format!("{x:.1}"),
                w: format!("{card_w:.1}"),
                inner: format!("{inner:.1}"),
                role_x: format!("{inner}"),
                badge_x: format!("{:.1}", x + card_w - 14.0),
                delay: format!("{delay:.2}"),
            }
        })
        .collect()
}

fn placed(cs: Vec<Company>) -> Vec<(Company, Slot)> {
    let n = cs.len();
    cs.into_iter().zip(slots(n)).collect()
}

#[test]
fn companies_rail_of_three_prints_role_x_in_full() {
    let cs = vec![
        company("A", "one", "now"),
        company("B", "two words", "consulting"),
        company("C", "three", "prev"),
    ];
    let out = companies::render(&placed(cs), &fonts());
    assert!(out.contains("<rect x=\"264.3\" y=\"48\" width=\"251.3\""));
    assert!(out.contains("<text x=\"280.3\" y=\"76\""));
    assert!(out.contains("<text x=\"280.3333\" y=\"100\" font-size=\"11.5\" fill=\"#8B95A1\">two words</text>"));
    assert!(out.contains("<text x=\"543.6666\" y=\"100\""));
    assert!(out.contains("<text x=\"501.7\" y=\"75\""));
    assert!(out.contains("style=\"animation-delay:0.35s\""));
}

#[test]
fn companies_slot_is_printed_as_given() {
    let slot = Slot {
        x: "1.0".to_string(),
        w: "2.0".to_string(),
        inner: "3.0".to_string(),
        role_x: "4.25".to_string(),
        badge_x: "5.0".to_string(),
        delay: "0.15".to_string(),
    };
    let out = companies::render(&[(company("<x>", "r", "now"), slot)], &fonts());
    assert!(out.ends_with("<g class=\"card\" style=\"animation-delay:0.15s\"><rect x=\"1.0\" y=\"48\" width=\"2.0\" height=\"112\" rx=\"12\" fill=\"#11151F\" stroke=\"#1E2430\"/><text x=\"3.0\" y=\"76\" font-size=\"14.5\" font-weight=\"700\" fill=\"#E6EDF3\">&lt;x&gt;</text><text x=\"5.0\" y=\"75\" font-size=\"10\" font-weight=\"700\" fill=\"#E4572E\" text-anchor=\"end\">NOW</text><text x=\"4.25\" y=\"100\" font-size=\"11.5\" fill=\"#8B95A1\">r</text></g></svg>"));
}

#[test]
fn companies_rail() {
    let cs = vec![
        company("Fastwork", "Head of Engineering leading product and platform teams", "now"),
        company("WorkMotion", "Architecture and delivery for a global HR platform", "consulting"),
        company("LINE", "Senior engineer on messaging services", "prev"),
        company("Dek-D", "Full-stack developer", "prev"),
    ];
    assert_eq!(companies::render(&placed(cs), &fonts()), "<svg xmlns=\"http://www.w3.org/2000/svg\" width=\"780\" height=\"168\" viewBox=\"0 0 780 168\" role=\"img\" aria-label=\"Companies: Fastwork, WorkMotion, LINE, Dek-D.\"><defs><style>@font-face{font-family:'JBM';font-weight:400;font-style:normal;src:url(data:font/woff2;base64,QUJDREVG) format('woff2');}@font-face{font-family:'JBM';font-weight:700;font-style:normal;src:url(data:font/woff2;base64,R0hJSks=) format('woff2');}text,tspan{font-family:'JBM','SFMono-Regular',Menlo,monospace;}@media (prefers-reduced-motion: reduce){*{animation:none!important;opacity:1!important;}.type{clip-path:none!important;}}.card{opacity:0;transform-box:fill-box;animation:rise .55s cubic-bezier(.2,.7,.2,1) both;}@keyframes rise{from{opacity:0;transform:translateY(8px);}to{opacity:1;transform:translateY(0);}}</style></defs><text x=\"1\" y=\"30\" font-size=\"13\" font-weight=\"700\" fill=\"#E6EDF3\">COMPANIES</text><text x=\"108\" y=\"30\" font-size=\"12\" fill=\"#8B95A1\">// where I've built &amp; led</text><g class=\"card\" style=\"animation-delay:0.15s\"><rect x=\"1.0\" y=\"48\" width=\"185.5\" height=\"112\" rx=\"12\" fill=\"#11151F\" stroke=\"#1E2430\"/><text x=\"17.0\" y=\"76\" font-size=\"14.5\" font-weight=\"700\" fill=\"#E6EDF3\">Fastwork</text><text x=\"172.5\" y=\"75\" font-size=\"10\" font-weight=\"700\" fill=\"#E4572E\" text-anchor=\"end\">NOW</text><text x=\"17\" y=\"100\" font-size=\"11.5\" fill=\"#8B95A1\">Head of Engineering</text><text x=\"17\" y=\"115.5\" font-size=\"11.5\" fill=\"#8B95A1\">leading product and</text><text x=\"17\" y=\"131\" font-size=\"11.5\" fill=\"#8B95A1\">platform teams</text></g><g class=\"card\" style=\"animation-delay:0.25s\"><rect x=\"198.5\" y=\"48\" width=\"185.5\" height=\"112\" rx=\"12\" fill=\"#11151F\" stroke=\"#1E2430\"/><text x=\"214.5\" y=\"76\" font-size=\"14.5\" font-weight=\"700\" fill=\"#E6EDF3\">WorkMotion</text><text x=\"370.0\" y=\"75\" font-size=\"10\" font-weight=\"700\" fill=\"#56B6C2\" text-anchor=\"end\">CONSULTING</text><text x=\"214.5\" y=\"100\" font-size=\"11.5\" fill=\"#8B95A1\">Architecture and</text><text x=\"214.5\" y=\"115.5\" font-size=\"11.5\" fill=\"#8B95A1\">delivery for a global</text><text x=\"214.5\" y=\"131\" font-size=\"11.5\" fill=\"#8B95A1\">HR platform</text></g><g class=\"card\" style=\"animation-delay:0.35s\"><rect x=\"396.0\" y=\"48\" width=\"185.5\" height=\"112\" rx=\"12\" fill=\"#11151F\" stroke=\"#1E2430\"/><text x=\"412.0\" y=\"76\" font-size=\"14.5\" font-weight=\"700\" fill=\"#E6EDF3\">LINE</text><text x=\"567.5\" y=\"75\" font-size=\"10\" font-weight=\"700\" fill=\"#8B95A1\" text-anchor=\"end\">PREV</text><text x=\"412\" y=\"100\" font-size=\"11.5\" fill=\"#8B95A1\">Senior engineer on</text><text x=\"412\" y=\"115.5\" font-size=\"11.5\" fill=\"#8B95A1\">messaging services</text></g><g class=\"card\" style=\"animation-delay:0.45s\"><rect x=\"593.5\" y=\"48\" width=\"185.5\" height=\"112\" rx=\"12\" fill=\"#11151F\" stroke=\"#1E2430\"/><text x=\"609.5\" y=\"76\" font-size=\"14.5\" font-weight=\"700\" fill=\"#E6EDF3\">Dek-D</text><text x=\"765.0\" y=\"75\" font-size=\"10\" font-weight=\"700\" fill=\"#8B95A1\" text-anchor=\"end\">PREV</text><text x=\"609.5\" y=\"100\" font-size=\"11.5\" fill=\"#8B95A1\">Full-stack developer</text></g></svg>");
}

#[test]
fn projects_grid() {
    let ps = vec![
        project("dup", "copy", "Find and remove duplicate files fast, with a friendly terminal UI and safe defaults", "dup.devpon.com", &["Rust", "TUI"]),
        project("Spark", "spark", "Tiny ideas & experiments", "spark", &["Go"]),
        project("cattype", "keyboard", "Typing practice with cats", "cattype.app", &["TypeScript", "Svelte", "Bun"]),
        project("Layered", "layers", "A layered notes app", "layered", &[]),
        project("Hidden", "x", "not shown", "nope", &["X"]),
    ];
    assert_eq!(projects::render(&ps, &fonts(), &logos()), "<svg xmlns=\"http://www.w3.org/2000/svg\" width=\"780\" height=\"372\" viewBox=\"0 0 780 372\" role=\"img\" aria-label=\"Side projects by notsu, collected at devpon.com.\"><defs><linearGradient id=\"card\" x1=\"0\" y1=\"0\" x2=\"0\" y2=\"1\"><stop offset=\"0\" stop-color=\"#11151F\"/><stop offset=\"1\" stop-color=\"#0E121B\"/></linearGradient><radialGradient id=\"glow\"><stop offset=\"0\" stop-color=\"#E4572E\" stop-opacity=\"0.33\"/><stop offset=\"1\" stop-color=\"#E4572E\" stop-opacity=\"0\"/></radialGradient><style>@font-face{font-family:'JBM';font-weight:400;font-style:normal;src:url(data:font/woff2;base64,QUJDREVG) format('woff2');}@font-face{font-family:'JBM';font-weight:700;font-style:normal;src:url(data:font/woff2;base64,R0hJSks=) format('woff2');}text,tspan{font-family:'JBM','SFMono-Regular',Menlo,monospace;}@media (prefers-reduced-motion: reduce){*{animation:none!important;opacity:1!important;}.type{clip-path:none!important;}}.card{opacity:0;transform-box:fill-box;animation:rise .6s cubic-bezier(.2,.7,.2,1) both;}@keyframes rise{from{opacity:0;transform:translateY(10px);}to{opacity:1;transform:translateY(0);}}</style></defs><text x=\"1\" y=\"30\" font-size=\"13\" font-weight=\"700\" fill=\"#E6EDF3\">SIDE PROJECTS</text><text x=\"120\" y=\"30\" font-size=\"12\" fill=\"#8B95A1\">// I build these for the joy of it</text><text x=\"779\" y=\"30\" font-size=\"12\" font-weight=\"700\" fill=\"#E4572E\" text-anchor=\"end\">devpon.com ↗</text><g class=\"card\" style=\"animation-delay:0.15s\"><rect x=\"1\" y=\"48\" width=\"382\" height=\"152\" rx=\"14\" fill=\"url(#card)\" stroke=\"#1E2430\"/><clipPath id=\"pc0\"><rect x=\"19\" y=\"68\" width=\"52\" height=\"52\" rx=\"13\"/></clipPath><circle cx=\"45\" cy=\"94\" r=\"35\" fill=\"url(#glow)\"/><image x=\"19\" y=\"68\" width=\"52\" height=\"52\" clip-path=\"url(#pc0)\" preserveAspectRatio=\"xMidYMid slice\" href=\"data:image/png;base64,AAAA\"/><rect x=\"19\" y=\"68\" width=\"52\" height=\"52\" rx=\"13\" fill=\"none\" stroke=\"#1E2430\"/><text x=\"87\" y=\"90\" font-size=\"16\" font-weight=\"800\" fill=\"#E6EDF3\">dup</text><rect x=\"87\" y=\"98\" width=\"22\" height=\"2.5\" rx=\"1.25\" fill=\"#E4572E\"/><text x=\"367\" y=\"88\" font-size=\"11\" font-weight=\"700\" fill=\"#E4572E\" text-anchor=\"end\">↗ dup.devpon.com</text><text x=\"19\" y=\"144\" font-size=\"12.5\" fill=\"#8B95A1\">Find and remove duplicate files fast, with a</text><text x=\"19\" y=\"160\" font-size=\"12.5\" fill=\"#8B95A1\">friendly terminal UI and safe defaults</text><circle cx=\"22\" cy=\"179\" r=\"2.6\" fill=\"#E4572E\"/><text x=\"31\" y=\"183\" font-size=\"11.5\" fill=\"#8B95A1\" letter-spacing=\"0.3\">Rust  ·  TUI</text></g><g class=\"card\" style=\"animation-delay:0.27s\"><rect x=\"397\" y=\"48\" width=\"382\" height=\"152\" rx=\"14\" fill=\"url(#card)\" stroke=\"#1E2430\"/><g transform=\"translate(419.0 72.0) scale(1.833)\" fill=\"none\" stroke=\"#E4572E\" stroke-width=\"1.9\" stroke-linecap=\"round\" stroke-linejoin=\"round\"><path d=\"M12 3v4M12 17v4M3 12h4M17 12h4M6 6l2.5 2.5M15.5 15.5 18 18M18 6l-2.5 2.5M8.5 15.5 6 18\"/><circle cx=\"12\" cy=\"12\" r=\"2.5\"/></g><text x=\"483\" y=\"90\" font-size=\"16\" font-weight=\"800\" fill=\"#E6EDF3\">Spark</text><rect x=\"483\" y=\"98\" width=\"22\" height=\"2.5\" rx=\"1.25\" fill=\"#E4572E\"/><text x=\"763\" y=\"88\" font-size=\"11\" font-weight=\"700\" fill=\"#E4572E\" text-anchor=\"end\">↗ spark</text><text x=\"415\" y=\"144\" font-size=\"12.5\" fill=\"#8B95A1\">Tiny ideas &amp; experiments</text><circle cx=\"418\" cy=\"179\" r=\"2.6\" fill=\"#E4572E\"/><text x=\"427\" y=\"183\" font-size=\"11.5\" fill=\"#8B95A1\" letter-spacing=\"0.3\">Go</text></g><g class=\"card\" style=\"animation-delay:0.39s\"><rect x=\"1\" y=\"214\" width=\"382\" height=\"152\" rx=\"14\" fill=\"url(#card)\" stroke=\"#1E2430\"/><clipPath id=\"pc2\"><rect x=\"19\" y=\"234\" width=\"52\" height=\"52\" rx=\"13\"/></clipPath><circle cx=\"45\" cy=\"260\" r=\"35\" fill=\"url(#glow)\"/><image x=\"19\" y=\"234\" width=\"52\" height=\"52\" clip-path=\"url(#pc2)\" preserveAspectRatio=\"xMidYMid slice\" href=\"data:image/png;base64,CCCC\"/><rect x=\"19\" y=\"234\" width=\"52\" height=\"52\" rx=\"13\" fill=\"none\" stroke=\"#1E2430\"/><text x=\"87\" y=\"256\" font-size=\"16\" font-weight=\"800\" fill=\"#E6EDF3\">cattype</text><rect x=\"87\" y=\"264\" width=\"22\" height=\"2.5\" rx=\"1.25\" fill=\"#E4572E\"/><text x=\"367\" y=\"254\" font-size=\"11\" font-weight=\"700\" fill=\"#E4572E\" text-anchor=\"end\">↗ cattype.app</text><text x=\"19\" y=\"310\" font-size=\"12.5\" fill=\"#8B95A1\">Typing practice with cats</text><circle cx=\"22\" cy=\"345\" r=\"2.6\" fill=\"#E4572E\"/><text x=\"31\" y=\"349\" font-size=\"11.5\" fill=\"#8B95A1\" letter-spacing=\"0.3\">TypeScript  ·  Svelte  ·  Bun</text></g><g class=\"card\" style=\"animation-delay:0.51s\"><rect x=\"397\" y=\"214\" width=\"382\" height=\"152\" rx=\"14\" fill=\"url(#card)\" stroke=\"#1E2430\"/><g transform=\"translate(419.0 238.0) scale(1.833)\" fill=\"none\" stroke=\"#E4572E\" stroke-width=\"1.9\" stroke-linecap=\"round\" stroke-linejoin=\"round\"><path d=\"M12 3l9 4.8-9 4.8-9-4.8 9-4.8ZM3 13l9 4.8 9-4.8\"/></g><text x=\"483\" y=\"256\" font-size=\"16\" font-weight=\"800\" fill=\"#E6EDF3\">Layered</text><rect x=\"483\" y=\"264\" width=\"22\" height=\"2.5\" rx=\"1.25\" fill=\"#E4572E\"/><text x=\"763\" y=\"254\" font-size=\"11\" font-weight=\"700\" fill=\"#E4572E\" text-anchor=\"end\">↗ layered</text><text x=\"415\" y=\"310\" font-size=\"12.5\" fill=\"#8B95A1\">A layered notes app</text><circle cx=\"418\" cy=\"345\" r=\"2.6\" fill=\"#E4572E\"/><text x=\"427\" y=\"349\" font-size=\"11.5\" fill=\"#8B95A1\" letter-spacing=\"0.3\"></text></g></svg>");
}

#[test]
fn icon_placement() {
    assert_eq!(icons::place("x", 525, 110, 22, "#8B95A1"), "<g transform=\"translate(52.5 11.0) scale(0.917)\" fill=\"none\" stroke=\"#8B95A1\" stroke-width=\"1.9\" stroke-linecap=\"round\" stroke-linejoin=\"round\"><path d=\"M5 4l14 16M19.5 4 4.5 20\"/></g>");
    assert_eq!(icons::paths("nothing"), "");
}

#[test]
fn sparkline_bars() {
    assert_eq!(now::sparkline(&[0, 3, 1, 7, 2, 0, 5]), "<text x=\"584.0\" y=\"78\" font-size=\"10.5\" letter-spacing=\"0.6\" fill=\"#8B95A1\">COMMITS · LAST 7 DAYS</text><rect x=\"584.0\" y=\"142.0\" width=\"18\" height=\"8.0\" rx=\"3\" fill=\"#E4572E\" opacity=\"0.4\" class=\"bar\" style=\"animation-delay:300ms\"/><rect x=\"610.0\" y=\"118.9\" width=\"18\" height=\"31.1\" rx=\"3\" fill=\"#E4572E\" opacity=\"0.4\" class=\"bar\" style=\"animation-delay:380ms\"/><rect x=\"636.0\" y=\"134.3\" width=\"18\" height=\"15.7\" rx=\"3\" fill=\"#E4572E\" opacity=\"0.4\" class=\"bar\" style=\"animation-delay:460ms\"/><rect x=\"662.0\" y=\"88.0\" width=\"18\" height=\"62.0\" rx=\"3\" fill=\"#E4572E\" opacity=\"1\" class=\"bar\" style=\"animation-delay:540ms\"/><rect x=\"688.0\" y=\"126.6\" width=\"18\" height=\"23.4\" rx=\"3\" fill=\"#E4572E\" opacity=\"0.4\" class=\"bar\" style=\"animation-delay:620ms\"/><rect x=\"714.0\" y=\"142.0\" width=\"18\" height=\"8.0\" rx=\"3\" fill=\"#E4572E\" opacity=\"0.4\" class=\"bar\" style=\"animation-delay:700ms\"/><rect x=\"740.0\" y=\"103.4\" width=\"18\" height=\"46.6\" rx=\"3\" fill=\"#E4572E\" opacity=\"0.4\" class=\"bar\" style=\"animation-delay:780ms\"/>");
    assert_eq!(now::sparkline(&[]), "");
    assert_eq!(now::sparkline(&[0, 0]), "<text x=\"714.0\" y=\"78\" font-size=\"10.5\" letter-spacing=\"0.6\" fill=\"#8B95A1\">COMMITS · LAST 7 DAYS</text><rect x=\"714.0\" y=\"142.0\" width=\"18\" height=\"8.0\" rx=\"3\" fill=\"#E4572E\" opacity=\"0.4\" class=\"bar\" style=\"animation-delay:300ms\"/><rect x=\"740.0\" y=\"142.0\" width=\"18\" height=\"8.0\" rx=\"3\" fill=\"#E4572E\" opacity=\"0.4\" class=\"bar\" style=\"animation-delay:380ms\"/>");
}

#[test]
fn pulse_frame_narrower_than_its_padding() {
    assert_eq!(
        pulse::card(10, 5, "T<", "M", "<g/>"),
        "<rect x=\"10\" y=\"1\" width=\"5\" height=\"188\" rx=\"14\" fill=\"#11151F\" stroke=\"#1E2430\"/><text x=\"30\" y=\"32\" font-size=\"11.5\" letter-spacing=\"0.8\" fill=\"#8B95A1\" font-weight=\"700\">T&lt;</text><text x=\"-5\" y=\"32\" font-size=\"11.5\" letter-spacing=\"0.8\" fill=\"#E4572E\" font-weight=\"700\" text-anchor=\"end\">M</text><g/>"
    );
    assert_eq!(
        pulse::card(1, 20, "", "", ""),
        "<rect x=\"1\" y=\"1\" width=\"20\" height=\"188\" rx=\"14\" fill=\"#11151F\" stroke=\"#1E2430\"/><text x=\"21\" y=\"32\" font-size=\"11.5\" letter-spacing=\"0.8\" fill=\"#8B95A1\" font-weight=\"700\"></text><text x=\"1\" y=\"32\" font-size=\"11.5\" letter-spacing=\"0.8\" fill=\"#E4572E\" font-weight=\"700\" text-anchor=\"end\"></text>"
    );
}
