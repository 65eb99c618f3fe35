//! The script that hands the settings and the colour scheme to a wallpaper page.

use crate::colors::PywalColors;
use crate::numbers::{hex_to_int, spec_hex_to_int};
use crate::text::{decimal, u32_to_decimal};
use vstd::prelude::*;
use vstd::seq_lib::lemma_concat_associative;
use vstd::string::StringExecFns;

verus! {

/// The palette colour `name` of `p`, or `default` where the scheme has none.
pub open spec fn palette_code(p: PywalColors, name: Seq<char>, default: Seq<char>) -> Seq<char> {
    if p.colors.colors().contains_key(name) {
        p.colors.colors()[name]
    } else {
        default
    }
}

/// The colour of a code as one integer.
pub open spec fn code_value(code: Seq<char>) -> u32 {
    spec_hex_to_int(vstd::utf8::encode_utf8(code))
}

/// The colours that a page is given, in order: the background, then palette colours one
/// to seven, each with its own default.
pub open spec fn page_colors(p: PywalColors) -> Seq<u32> {
    seq![
        code_value(p.special.background@),
        code_value(palette_code(p, "color1"@, "#ff00ff"@)),
        code_value(palette_code(p, "color2"@, "#00ffff"@)),
        code_value(palette_code(p, "color3"@, "#00ff00"@)),
        code_value(palette_code(p, "color4"@, "#ffffff"@)),
        code_value(palette_code(p, "color5"@, "#ff00ff"@)),
        code_value(palette_code(p, "color6"@, "#ffff00"@)),
        code_value(palette_code(p, "color7"@, "#ff0000"@)),
    ]
}

/// The colours a page is given are the background, then the palette colours `color1`
/// to `color7` of the scheme's table, in that order, each read as one integer; a colour
/// the table lacks is given its own default: magenta, cyan, green, white, magenta, yellow
/// and red.
pub proof fn lemma_page_colors(p: PywalColors)
    ensures
        page_colors(p).len() == 8,
        page_colors(p)[0] == code_value(p.special.background@),
        ({
            let t = p.colors.colors();
            page_colors(p)[1] == code_value(
                if t.contains_key("color1"@) { t["color1"@] } else { "#ff00ff"@ },
            )
        }),
        ({
            let t = p.colors.colors();
            page_colors(p)[2] == code_value(
                if t.contains_key("color2"@) { t["color2"@] } else { "#00ffff"@ },
            )
        }),
        ({
            let t = p.colors.colors();
            page_colors(p)[3] == code_value(
                if t.contains_key("color3"@) { t["color3"@] } else { "#00ff00"@ },
            )
        }),
        ({
            let t = p.colors.colors();
            page_colors(p)[4] == code_value(
                if t.contains_key("color4"@) { t["color4"@] } else { "#ffffff"@ },
            )
        }),
        ({
            let t = p.colors.colors();
            page_colors(p)[5] == code_value(
                if t.contains_key("color5"@) { t["color5"@] } else { "#ff00ff"@ },
            )
        }),
        ({
            let t = p.colors.colors();
            page_colors(p)[6] == code_value(
                if t.contains_key("color6"@) { t["color6"@] } else { "#ffff00"@ },
            )
        }),
        ({
            let t = p.colors.colors();
            page_colors(p)[7] == code_value(
                if t.contains_key("color7"@) { t["color7"@] } else { "#ff0000"@ },
            )
        }),
{
}

/// The script for the settings `config` (as JSON) and the colours `v`: it stores them
/// in `window.vaporConfig` and `window.vaporColors` and sends a `vaporwall:update`
/// event that carries both.
pub open spec fn state_script_text(config: Seq<char>, v: Seq<u32>) -> Seq<char> {
        "\n        (function() {\n            window.vaporConfig = "@ + config
            + ";\n            window.vaporColors = {\n                background: "@ + decimal(v[0] as nat)
            + ",\n                color1: "@ + decimal(v[1] as nat)
            + ",\n                color2: "@ + decimal(v[2] as nat)
            + ",\n                color3: "@ + decimal(v[3] as nat)
            + ",\n                color4: "@ + decimal(v[4] as nat)
            + ",\n                color5: "@ + decimal(v[5] as nat)
            + ",\n                color6: "@ + decimal(v[6] as nat)
            + ",\n                color7: "@ + decimal(v[7] as nat)
            + "\n            };\n\n            const event = new CustomEvent('vaporwall:update', {\n                detail: {\n                    config: window.vaporConfig,\n                    colors: window.vaporColors\n                }\n            });\n            window.dispatchEvent(event);\n        })();\n        "@
}

/// Whether `text` holds `label` directly followed by `n` in decimal, and then a comma or
/// a line break, so that the number ends there.
pub open spec fn names_value(text: Seq<char>, label: Seq<char>, n: u32) -> bool {
    exists|a: Seq<char>, b: Seq<char>|
        text == a + label + decimal(n as nat) + b && b.len() > 0 && (b[0] == ',' || b[0] == '\n')
}

/// The script hands each colour to the page under its own name: `background: ` with the
/// first colour, then `color1: ` to `color7: ` with the next seven, each in decimal.
pub proof fn lemma_script_names_colors(config: Seq<char>, v: Seq<u32>)
    requires
        v.len() == 8,
    ensures
        names_value(state_script_text(config, v), "background: "@, v[0]),
        names_value(state_script_text(config, v), "color1: "@, v[1]),
        names_value(state_script_text(config, v), "color2: "@, v[2]),
        names_value(state_script_text(config, v), "color3: "@, v[3]),
        names_value(state_script_text(config, v), "color4: "@, v[4]),
        names_value(state_script_text(config, v), "color5: "@, v[5]),
        names_value(state_script_text(config, v), "color6: "@, v[6]),
        names_value(state_script_text(config, v), "color7: "@, v[7]),
{
    lemma_script_names_background(config, v);
    lemma_script_names_color1(config, v);
    lemma_script_names_color2(config, v);
    lemma_script_names_color3(config, v);
    lemma_script_names_color4(config, v);
    lemma_script_names_color5(config, v);
    lemma_script_names_color6(config, v);
    lemma_script_names_color7(config, v);
}

proof fn lemma_script_names_background(config: Seq<char>, v: Seq<u32>)
    requires
        v.len() == 8,
    ensures
        names_value(state_script_text(config, v), "background: "@, v[0]),
{
    reveal_strlit(";\n            window.vaporColors = {\n                background: ");
    reveal_strlit(";\n            window.vaporColors = {\n                ");
    reveal_strlit("background: ");
    reveal_strlit(",\n                color1: ");
    let x = "\n        (function() {\n            window.vaporConfig = "@ + config;
    let a = x + ";\n            window.vaporColors = {\n                "@;
    let z = x + ";\n            window.vaporColors = {\n                background: "@ + decimal(v[0] as nat);
    assert(";\n            window.vaporColors = {\n                background: "@ =~= ";\n            window.vaporColors = {\n                "@ + "background: "@);
    lemma_concat_associative(x, ";\n            window.vaporColors = {\n                "@, "background: "@);
    assert(z == a + "background: "@ + decimal(v[0] as nat));
    let f1 = ",\n                color1: "@;
    let f2 = f1 + decimal(v[1] as nat);
    lemma_concat_associative(z, f1, decimal(v[1] as nat));
    let f3 = f2 + ",\n                color2: "@;
    lemma_concat_associative(z, f2, ",\n                color2: "@);
    let f4 = f3 + decimal(v[2] as nat);
    lemma_concat_associative(z, f3, decimal(v[2] as nat));
    let f5 = f4 + ",\n                color3: "@;
    lemma_concat_associative(z, f4, ",\n                color3: "@);
    let f6 = f5 + decimal(v[3] as nat);
    lemma_concat_associative(z, f5, decimal(v[3] as nat));
    let f7 = f6 + ",\n                color4: "@;
    lemma_concat_associative(z, f6, ",\n                color4: "@);
    let f8 = f7 + decimal(v[4] as nat);
    lemma_concat_associative(z, f7, decimal(v[4] as nat));
    let f9 = f8 + ",\n                color5: "@;
    lemma_concat_associative(z, f8, ",\n                color5: "@);
    let f10 = f9 + decimal(v[5] as nat);
    lemma_concat_associative(z, f9, decimal(v[5] as nat));
    let f11 = f10 + ",\n                color6: "@;
    lemma_concat_associative(z, f10, ",\n                color6: "@);
    let f12 = f11 + decimal(v[6] as nat);
    lemma_concat_associative(z, f11, decimal(v[6] as nat));
    let f13 = f12 + ",\n                color7: "@;
    lemma_concat_associative(z, f12, ",\n                color7: "@);
    let f14 = f13 + decimal(v[7] as nat);
    lemma_concat_associative(z, f13, decimal(v[7] as nat));
    let f15 = f14 + "\n            };\n\n            const event = new CustomEvent('vaporwall:update', {\n                detail: {\n                    config: window.vaporConfig,\n                    colors: window.vaporColors\n                }\n            });\n            window.dispatchEvent(event);\n        })();\n        "@;
    lemma_concat_associative(z, f14, "\n            };\n\n            const event = new CustomEvent('vaporwall:update', {\n                detail: {\n                    config: window.vaporConfig,\n                    colors: window.vaporColors\n                }\n            });\n            window.dispatchEvent(event);\n        })();\n        "@);
    assert(state_script_text(config, v) == a + "background: "@ + decimal(v[0] as nat) + f15);
    assert(f15[0] == ",\n                color1: "@[0]);
}

proof fn lemma_script_names_color1(config: Seq<char>, v: Seq<u32>)
    requires
        v.len() == 8,
    ensures
        names_value(state_script_text(config, v), "color1: "@, v[1]),
{
    reveal_strlit(",\n                color1: ");
    reveal_strlit(",\n                ");
    reveal_strlit("color1: ");
    reveal_strlit(",\n                color2: ");
    let x = "\n        (function() {\n            window.vaporConfig = "@ + config + ";\n            window.vaporColors = {\n                background: "@ + decimal(v[0] as nat);
    let a = x + ",\n                "@;
    let z = x + ",\n                color1: "@ + decimal(v[1] as nat);
    assert(",\n                color1: "@ =~= ",\n                "@ + "color1: "@);
    lemma_concat_associative(x, ",\n                "@, "color1: "@);
    assert(z == a + "color1: "@ + decimal(v[1] as nat));
    let f1 = ",\n                color2: "@;
    let f2 = f1 + decimal(v[2] as nat);
    lemma_concat_associative(z, f1, decimal(v[2] as nat));
    let f3 = f2 + ",\n                color3: "@;
    lemma_concat_associative(z, f2, ",\n                color3: "@);
    let f4 = f3 + decimal(v[3] as nat);
    lemma_concat_associative(z, f3, decimal(v[3] as nat));
    let f5 = f4 + ",\n                color4: "@;
    lemma_concat_associative(z, f4, ",\n                color4: "@);
    let f6 = f5 + decimal(v[4] as nat);
    lemma_concat_associative(z, f5, decimal(v[4] as nat));
    let f7 = f6 + ",\n                color5: "@;
    lemma_concat_associative(z, f6, ",\n                color5: "@);
    let f8 = f7 + decimal(v[5] as nat);
    lemma_concat_associative(z, f7, decimal(v[5] as nat));
    let f9 = f8 + ",\n                color6: "@;
    lemma_concat_associative(z, f8, ",\n                color6: "@);
    let f10 = f9 + decimal(v[6] as nat);
    lemma_concat_associative(z, f9, decimal(v[6] as nat));
    let f11 = f10 + ",\n                color7: "@;
    lemma_concat_associative(z, f10, ",\n                color7: "@);
    let f12 = f11 + decimal(v[7] as nat);
    lemma_concat_associative(z, f11, decimal(v[7] as nat));
    let f13 = f12 + "\n            };\n\n            const event = new CustomEvent('vaporwall:update', {\n                detail: {\n                    config: window.vaporConfig,\n                    colors: window.vaporColors\n                }\n            });\n            window.dispatchEvent(event);\n        })();\n        "@;
    lemma_concat_associative(z, f12, "\n            };\n\n            const event = new CustomEvent('vaporwall:update', {\n                detail: {\n                    config: window.vaporConfig,\n                    colors: window.vaporColors\n                }\n            });\n            window.dispatchEvent(event);\n        })();\n        "@);
    assert(state_script_text(config, v) == a + "color1: "@ + decimal(v[1] as nat) + f13);
    assert(f13[0] == ",\n                color2: "@[0]);
}

proof fn lemma_script_names_color2(config: Seq<char>, v: Seq<u32>)
    requires
        v.len() == 8,
    ensures
        names_value(state_script_text(config, v), "color2: "@, v[2]),
{
    reveal_strlit(",\n                color2: ");
    reveal_strlit(",\n                ");
    reveal_strlit("color2: ");
    reveal_strlit(",\n                color3: ");
    let x = "\n        (function() {\n            window.vaporConfig = "@ + config + ";\n            window.vaporColors = {\n                background: "@ + decimal(v[0] as nat) + ",\n                color1: "@ + decimal(v[1] as nat);
    let a = x + ",\n                "@;
    let z = x + ",\n                color2: "@ + decimal(v[2] as nat);
    assert(",\n                color2: "@ =~= ",\n                "@ + "color2: "@);
    lemma_concat_associative(x, ",\n                "@, "color2: "@);
    assert(z == a + "color2: "@ + decimal(v[2] as nat));
    let f1 = ",\n                color3: "@;
    let f2 = f1 + decimal(v[3] as nat);
    lemma_concat_associative(z, f1, decimal(v[3] as nat));
    let f3 = f2 + ",\n                color4: "@;
    lemma_concat_associative(z, f2, ",\n                color4: "@);
    let f4 = f3 + decimal(v[4] as nat);
    lemma_concat_associative(z, f3, decimal(v[4] as nat));
    let f5 = f4 + ",\n                color5: "@;
    lemma_concat_associative(z, f4, ",\n                color5: "@);
    let f6 = f5 + decimal(v[5] as nat);
    lemma_concat_associative(z, f5, decimal(v[5] as nat));
    let f7 = f6 + ",\n                color6: "@;
    lemma_concat_associative(z, f6, ",\n                color6: "@);
    let f8 = f7 + decimal(v[6] as nat);
    lemma_concat_associative(z, f7, decimal(v[6] as nat));
    let f9 = f8 + ",\n                color7: "@;
    lemma_concat_associative(z, f8, ",\n                color7: "@);
    let f10 = f9 + decimal(v[7] as nat);
    lemma_concat_associative(z, f9, decimal(v[7] as nat));
    let f11 = f10 + "\n            };\n\n            const event = new CustomEvent('vaporwall:update', {\n                detail: {\n                    config: window.vaporConfig,\n                    colors: window.vaporColors\n                }\n            });\n            window.dispatchEvent(event);\n        })();\n        "@;
    lemma_concat_associative(z, f10, "\n            };\n\n            const event = new CustomEvent('vaporwall:update', {\n                detail: {\n                    config: window.vaporConfig,\n                    colors: window.vaporColors\n                }\n            });\n            window.dispatchEvent(event);\n        })();\n        "@);
    assert(state_script_text(config, v) == a + "color2: "@ + decimal(v[2] as nat) + f11);
    assert(f11[0] == ",\n                color3: "@[0]);
}

proof fn lemma_script_names_color3(config: Seq<char>, v: Seq<u32>)
    requires
        v.len() == 8,
    ensures
        names_value(state_script_text(config, v), "color3: "@, v[3]),
{
    reveal_strlit(",\n                color3: ");
    reveal_strlit(",\n                ");
    reveal_strlit("color3: ");
    reveal_strlit(",\n                color4: ");
    let x = "\n        (function() {\n            window.vaporConfig = "@ + config + ";\n            window.vaporColors = {\n                background: "@ + decimal(v[0] as nat) + ",\n                color1: "@ + decimal(v[1] as nat) + ",\n                color2: "@ + decimal(v[2] as nat);
    let a = x + ",\n                "@;
    let z = x + ",\n                color3: "@ + decimal(v[3] as nat);
    assert(",\n                color3: "@ =~= ",\n                "@ + "color3: "@);
    lemma_concat_associative(x, ",\n                "@, "color3: "@);
    assert(z == a + "color3: "@ + decimal(v[3] as nat));
    let f1 = ",\n                color4: "@;
    let f2 = f1 + decimal(v[4] as nat);
    lemma_concat_associative(z, f1, decimal(v[4] as nat));
    let f3 = f2 + ",\n                color5: "@;
    lemma_concat_associative(z, f2, ",\n                color5: "@);
    let f4 = f3 + decimal(v[5] as nat);
    lemma_concat_associative(z, f3, decimal(v[5] as nat));
    let f5 = f4 + ",\n                color6: "@;
    lemma_concat_associative(z, f4, ",\n                color6: "@);
    let f6 = f5 + decimal(v[6] as nat);
    lemma_concat_associative(z, f5, decimal(v[6] as nat));
    let f7 = f6 + ",\n                color7: "@;
    lemma_concat_associative(z, f6, ",\n                color7: "@);
    let f8 = f7 + decimal(v[7] as nat);
    lemma_concat_associative(z, f7, decimal(v[7] as nat));
    let f9 = f8 + "\n            };\n\n            const event = new CustomEvent('vaporwall:update', {\n                detail: {\n                    config: window.vaporConfig,\n                    colors: window.vaporColors\n                }\n            });\n            window.dispatchEvent(event);\n        })();\n        "@;
    lemma_concat_associative(z, f8, "\n            };\n\n            const event = new CustomEvent('vaporwall:update', {\n                detail: {\n                    config: window.vaporConfig,\n                    colors: window.vaporColors\n                }\n            });\n            window.dispatchEvent(event);\n        })();\n        "@);
    assert(state_script_text(config, v) == a + "color3: "@ + decimal(v[3] as nat) + f9);
    assert(f9[0] == ",\n                color4: "@[0]);
}

proof fn lemma_script_names_color4(config: Seq<char>, v: Seq<u32>)
    requires
        v.len() == 8,
    ensures
        names_value(state_script_text(config, v), "color4: "@, v[4]),
{
    reveal_strlit(",\n                color4: ");
    reveal_strlit(",\n                ");
    reveal_strlit("color4: ");
    reveal_strlit(",\n                color5: ");
    let x = "\n        (function() {\n            window.vaporConfig = "@ + config + ";\n            window.vaporColors = {\n                background: "@ + decimal(v[0] as nat) + ",\n                color1: "@ + decimal(v[1] as nat) + ",\n                color2: "@ + decimal(v[2] as nat) + ",\n                color3: "@ + decimal(v[3] as nat);
    let a = x + ",\n                "@;
    let z = x + ",\n                color4: "@ + decimal(v[4] as nat);
    assert(",\n                color4: "@ =~= ",\n                "@ + "color4: "@);
    lemma_concat_associative(x, ",\n                "@, "color4: "@);
    assert(z == a + "color4: "@ + decimal(v[4] as nat));
    let f1 = ",\n                color5: "@;
    let f2 = f1 + decimal(v[5] as nat);
    lemma_concat_associative(z, f1, decimal(v[5] as nat));
    let f3 = f2 + ",\n                color6: "@;
    lemma_concat_associative(z, f2, ",\n                color6: "@);
    let f4 = f3 + decimal(v[6] as nat);
    lemma_concat_associative(z, f3, decimal(v[6] as nat));
    let f5 = f4 + ",\n                color7: "@;
    lemma_concat_associative(z, f4, ",\n                color7: "@);
    let f6 = f5 + decimal(v[7] as nat);
    lemma_concat_associative(z, f5, decimal(v[7] as nat));
    let f7 = f6 + "\n            };\n\n            const event = new CustomEvent('vaporwall:update', {\n                detail: {\n                    config: window.vaporConfig,\n                    colors: window.vaporColors\n                }\n            });\n            window.dispatchEvent(event);\n        })();\n        "@;
    lemma_concat_associative(z, f6, "\n            };\n\n            const event = new CustomEvent('vaporwall:update', {\n                detail: {\n                    config: window.vaporConfig,\n                    colors: window.vaporColors\n                }\n            });\n            window.dispatchEvent(event);\n        })();\n        "@);
    assert(state_script_text(config, v) == a + "color4: "@ + decimal(v[4] as nat) + f7);
    assert(f7[0] == ",\n                color5: "@[0]);
}

proof fn lemma_script_names_color5(config: Seq<char>, v: Seq<u32>)
    requires
        v.len() == 8,
    ensures
        names_value(state_script_text(config, v), "color5: "@, v[5]),
{
    reveal_strlit(",\n                color5: ");
    reveal_strlit(",\n                ");
    reveal_strlit("color5: ");
    reveal_strlit(",\n                color6: ");
    let x = "\n        (function() {\n            window.vaporConfig = "@ + config + ";\n            window.vaporColors = {\n                background: "@ + decimal(v[0] as nat) + ",\n                color1: "@ + decimal(v[1] as nat) + ",\n                color2: "@ + decimal(v[2] as nat) + ",\n                color3: "@ + decimal(v[3] as nat) + ",\n                color4: "@ + decimal(v[4] as nat);
    let a = x + ",\n                "@;
    let z = x + ",\n                color5: "@ + decimal(v[5] as nat);
    assert(",\n                color5: "@ =~= ",\n                "@ + "color5: "@);
    lemma_concat_associative(x, ",\n                "@, "color5: "@);
    assert(z == a + "color5: "@ + decimal(v[5] as nat));
    let f1 = ",\n                color6: "@;
    let f2 = f1 + decimal(v[6] as nat);
    lemma_concat_associative(z, f1, decimal(v[6] as nat));
    let f3 = f2 + ",\n                color7: "@;
    lemma_concat_associative(z, f2, ",\n                color7: "@);
    let f4 = f3 + decimal(v[7] as nat);
    lemma_concat_associative(z, f3, decimal(v[7] as nat));
    let f5 = f4 + "\n            };\n\n            const event = new CustomEvent('vaporwall:update', {\n                detail: {\n                    config: window.vaporConfig,\n                    colors: window.vaporColors\n                }\n            });\n            window.dispatchEvent(event);\n        })();\n        "@;
    lemma_concat_associative(z, f4, "\n            };\n\n            const event = new CustomEvent('vaporwall:update', {\n                detail: {\n                    config: window.vaporConfig,\n                    colors: window.vaporColors\n                }\n            });\n            window.dispatchEvent(event);\n        })();\n        "@);
    assert(state_script_text(config, v) == a + "color5: "@ + decimal(v[5] as nat) + f5);
    assert(f5[0] == ",\n                color6: "@[0]);
}

proof fn lemma_script_names_color6(config: Seq<char>, v: Seq<u32>)
    requires
        v.len() == 8,
    ensures
        names_value(state_script_text(config, v), "color6: "@, v[6]),
{
    reveal_strlit(",\n                color6: ");
    reveal_strlit(",\n                ");
    reveal_strlit("color6: ");
    reveal_strlit(",\n                color7: ");
    let x = "\n        (function() {\n            window.vaporConfig = "@ + config + ";\n            window.vaporColors = {\n                background: "@ + decimal(v[0] as nat) + ",\n                color1: "@ + decimal(v[1] as nat) + ",\n                color2: "@ + decimal(v[2] as nat) + ",\n                color3: "@ + decimal(v[3] as nat) + ",\n                color4: "@ + decimal(v[4] as nat) + ",\n                color5: "@ + decimal(v[5] as nat);
    let a = x + ",\n                "@;
    let z = x + ",\n                color6: "@ + decimal(v[6] as nat);
    assert(",\n                color6: "@ =~= ",\n                "@ + "color6: "@);
    lemma_concat_associative(x, ",\n                "@, "color6: "@);
    assert(z == a + "color6: "@ + decimal(v[6] as nat));
    let f1 = ",\n                color7: "@;
    let f2 = f1 + decimal(v[7] as nat);
    lemma_concat_associative(z, f1, decimal(v[7] as nat));
    let f3 = f2 + "\n            };\n\n            const event = new CustomEvent('vaporwall:update', {\n                detail: {\n                    config: window.vaporConfig,\n                    colors: window.vaporColors\n                }\n            });\n            window.dispatchEvent(event);\n        })();\n        "@;
    lemma_concat_associative(z, f2, "\n            };\n\n            const event = new CustomEvent('vaporwall:update', {\n                detail: {\n                    config: window.vaporConfig,\n                    colors: window.vaporColors\n                }\n            });\n            window.dispatchEvent(event);\n        })();\n        "@);
    assert(state_script_text(config, v) == a + "color6: "@ + decimal(v[6] as nat) + f3);
    assert(f3[0] == ",\n                color7: "@[0]);
}

proof fn lemma_script_names_color7(config: Seq<char>, v: Seq<u32>)
    requires
        v.len() == 8,
    ensures
        names_value(state_script_text(config, v), "color7: "@, v[7]),
{
    reveal_strlit(",\n                color7: ");
    reveal_strlit(",\n                ");
    reveal_strlit("color7: ");
    reveal_strlit("\n            };\n\n            const event = new CustomEvent('vaporwall:update', {\n                detail: {\n                    config: window.vaporConfig,\n                    colors: window.vaporColors\n                }\n            });\n            window.dispatchEvent(event);\n        })();\n        ");
    let x = "\n        (function() {\n            window.vaporConfig = "@ + config + ";\n            window.vaporColors = {\n                background: "@ + decimal(v[0] as nat) + ",\n                color1: "@ + decimal(v[1] as nat) + ",\n                color2: "@ + decimal(v[2] as nat) + ",\n                color3: "@ + decimal(v[3] as nat) + ",\n                color4: "@ + decimal(v[4] as nat) + ",\n                color5: "@ + decimal(v[5] as nat) + ",\n                color6: "@ + decimal(v[6] as nat);
    let a = x + ",\n                "@;
    let z = x + ",\n                color7: "@ + decimal(v[7] as nat);
    assert(",\n                color7: "@ =~= ",\n                "@ + "color7: "@);
    lemma_concat_associative(x, ",\n                "@, "color7: "@);
    assert(z == a + "color7: "@ + decimal(v[7] as nat));
    let f1 = "\n            };\n\n            const event = new CustomEvent('vaporwall:update', {\n                detail: {\n                    config: window.vaporConfig,\n                    colors: window.vaporColors\n                }\n            });\n            window.dispatchEvent(event);\n        })();\n        "@;
    assert(state_script_text(config, v) == a + "color7: "@ + decimal(v[7] as nat) + f1);
    assert(f1[0] == "\n            };\n\n            const event = new CustomEvent('vaporwall:update', {\n                detail: {\n                    config: window.vaporConfig,\n                    colors: window.vaporColors\n                }\n            });\n            window.dispatchEvent(event);\n        })();\n        "@[0]);
}

fn palette_value(p: &PywalColors, name: &str, default: &str) -> (r: u32)
    ensures
        r == code_value(palette_code(*p, name@, default@)),
{
    match p.colors.get(name) {
        Some(v) => hex_to_int(v.as_str()),
        None => hex_to_int(default),
    }
}

/// The script that hands the settings `config_json` (already written as JSON) and the
/// colours of `colors` to a wallpaper page.
pub fn state_script(config_json: &str, colors: &PywalColors) -> (r: String)
    ensures
        r@ == state_script_text(config_json@, page_colors(*colors)),
{
    let mut v: Vec<u32> = Vec::new();
    v.push(hex_to_int(colors.special.background.as_str()));
    v.push(palette_value(colors, "color1", "#ff00ff"));
    v.push(palette_value(colors, "color2", "#00ffff"));
    v.push(palette_value(colors, "color3", "#00ff00"));
    v.push(palette_value(colors, "color4", "#ffffff"));
    v.push(palette_value(colors, "color5", "#ff00ff"));
    v.push(palette_value(colors, "color6", "#ffff00"));
    v.push(palette_value(colors, "color7", "#ff0000"));
    assert(v@ =~= page_colors(*colors));
    let mut r = String::new();
    r.append("\n        (function() {\n            window.vaporConfig = ");
    r.append(config_json);
    let d0 = u32_to_decimal(v[0]);
    r.append(";\n            window.vaporColors = {\n                background: ");
    r.append(d0.as_str());
    let d1 = u32_to_decimal(v[1]);
    r.append(",\n                color1: ");
    r.append(d1.as_str());
    let d2 = u32_to_decimal(v[2]);
    r.append(",\n                color2: ");
    r.append(d2.as_str());
    let d3 = u32_to_decimal(v[3]);
    r.append(",\n                color3: ");
    r.append(d3.as_str());
    let d4 = u32_to_decimal(v[4]);
    r.append(",\n                color4: ");
    r.append(d4.as_str());
    let d5 = u32_to_decimal(v[5]);
    r.append(",\n                color5: ");
    r.append(d5.as_str());
    let d6 = u32_to_decimal(v[6]);
    r.append(",\n                color6: ");
    r.append(d6.as_str());
    let d7 = u32_to_decimal(v[7]);
    r.append(",\n                color7: ");
    r.append(d7.as_str());
    r.append("\n            };\n\n            const event = new CustomEvent('vaporwall:update', {\n                detail: {\n                    config: window.vaporConfig,\n                    colors: window.vaporColors\n                }\n            });\n            window.dispatchEvent(event);\n        })();\n        ");
    r
}

} // verus!
