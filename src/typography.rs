use vstd::prelude::*;

verus! {

/// Keys of the typography tokens a theme defines.
#[derive(Clone, Copy, Debug, Hash, PartialEq, Eq, Structural)]
pub enum TypographyToken {
    TextXs,
    TextSm,
    TextBase,
    TextLg,
    TextXl,
    Text2xl,
    Text3xl,
    Text4xl,
    Text5xl,
    FontThin,
    FontLight,
    FontNormal,
    FontMedium,
    FontSemibold,
    FontBold,
    FontBlack,
    LeadingNone,
    LeadingTight,
    LeadingSnug,
    LeadingNormal,
    LeadingRelaxed,
    LeadingLoose,
    TrackingTighter,
    TrackingTight,
    TrackingNormal,
    TrackingWide,
    TrackingWider,
}

/// A font and the fonts to fall back on, in order.
#[derive(Clone, Debug)]
pub struct FontFamily {
    pub name: String,
    pub fallbacks: Vec<String>,
}

/// The names of a list of strings.
pub open spec fn names(v: Seq<String>) -> Seq<Seq<char>> {
    v.map_values(|s: String| s@)
}

fn owned_all(names_in: &[&str]) -> (r: Vec<String>)
    ensures
        r@.len() == names_in@.len(),
        forall|i: int| 0 <= i < r@.len() ==> #[trigger] r@[i]@ == names_in@[i]@,
{
    let mut out: Vec<String> = Vec::new();
    let mut i: usize = 0;
    while i < names_in.len()
        invariant
            i <= names_in@.len(),
            out@.len() == i,
            forall|k: int| 0 <= k < i ==> #[trigger] out@[k]@ == names_in@[k]@,
        decreases names_in@.len() - i,
    {
        out.push(names_in[i].to_owned());
        i = i + 1;
    }
    out
}

impl FontFamily {
    pub fn new(name: &str, fallbacks: Vec<&str>) -> (r: FontFamily)
        ensures
            r.name@ == name@,
            names(r.fallbacks@) == fallbacks@.map_values(|s: &str| s@),
    {
        let f = owned_all(fallbacks.as_slice());
        let r = FontFamily { name: name.to_owned(), fallbacks: f };
        proof {
            assert(names(r.fallbacks@) =~= fallbacks@.map_values(|s: &str| s@));
        }
        r
    }

    /// The platform's sans-serif stack.
    pub fn system_sans() -> (r: FontFamily)
        ensures
            r.name@ == "system-ui"@,
            names(r.fallbacks@) == seq![
                "-apple-system"@, "BlinkMacSystemFont"@, "Segoe UI"@, "Roboto"@, "Oxygen"@, "Ubuntu"@, "sans-serif"@,
            ],
    {
        let r = FontFamily::new(
            "system-ui",
            vec!["-apple-system", "BlinkMacSystemFont", "Segoe UI", "Roboto", "Oxygen", "Ubuntu", "sans-serif"],
        );
        proof {
            assert(names(r.fallbacks@) =~= seq![
                "-apple-system"@, "BlinkMacSystemFont"@, "Segoe UI"@, "Roboto"@, "Oxygen"@, "Ubuntu"@, "sans-serif"@,
            ]);
        }
        r
    }

    /// The platform's monospace stack.
    pub fn system_mono() -> (r: FontFamily)
        ensures
            r.name@ == "ui-monospace"@,
            names(r.fallbacks@) == seq![
                "SFMono-Regular"@, "SF Mono"@, "Menlo"@, "Consolas"@, "Liberation Mono"@, "monospace"@,
            ],
    {
        let r = FontFamily::new(
            "ui-monospace",
            vec!["SFMono-Regular", "SF Mono", "Menlo", "Consolas", "Liberation Mono", "monospace"],
        );
        proof {
            assert(names(r.fallbacks@) =~= seq![
                "SFMono-Regular"@, "SF Mono"@, "Menlo"@, "Consolas"@, "Liberation Mono"@, "monospace"@,
            ]);
        }
        r
    }

    /// The platform's serif stack.
    pub fn system_serif() -> (r: FontFamily)
        ensures
            r.name@ == "ui-serif"@,
            names(r.fallbacks@) == seq!["Georgia"@, "Cambria"@, "Times New Roman"@, "Times"@, "serif"@],
    {
        let r = FontFamily::new("ui-serif", vec!["Georgia", "Cambria", "Times New Roman", "Times", "serif"]);
        proof {
            assert(names(r.fallbacks@) =~= seq!["Georgia"@, "Cambria"@, "Times New Roman"@, "Times"@, "serif"@]);
        }
        r
    }
}

impl Default for FontFamily {
    fn default() -> (r: FontFamily)
        ensures
            r.name@ == "system-ui"@,
    {
        FontFamily::system_sans()
    }
}

/// Weight of a font face.
#[derive(Clone, Copy, Debug, PartialEq, Eq, Structural)]
pub enum FontWeight {
    Thin,
    ExtraLight,
    Light,
    Normal,
    Medium,
    Semibold,
    Bold,
    ExtraBold,
    Black,
}

impl Default for FontWeight {
    fn default() -> (r: FontWeight)
        ensures
            r == FontWeight::Normal,
    {
        FontWeight::Normal
    }
}

/// The CSS weight number: 100 for `Thin` up to 900 for `Black`, in steps of 100.
pub open spec fn weight_number(w: FontWeight) -> u16 {
    match w {
        FontWeight::Thin => 100,
        FontWeight::ExtraLight => 200,
        FontWeight::Light => 300,
        FontWeight::Normal => 400,
        FontWeight::Medium => 500,
        FontWeight::Semibold => 600,
        FontWeight::Bold => 700,
        FontWeight::ExtraBold => 800,
        FontWeight::Black => 900,
    }
}

impl FontWeight {
    pub fn as_u16(self) -> (r: u16)
        ensures
            r == weight_number(self),
    {
        match self {
            FontWeight::Thin => 100,
            FontWeight::ExtraLight => 200,
            FontWeight::Light => 300,
            FontWeight::Normal => 400,
            FontWeight::Medium => 500,
            FontWeight::Semibold => 600,
            FontWeight::Bold => 700,
            FontWeight::ExtraBold => 800,
            FontWeight::Black => 900,
        }
    }
}

} // verus!
