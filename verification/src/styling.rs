//! The look of a chart: the palette, text colours and backgrounds of a theme,
//! the sizes of text, and the metrics of the layout.

use vstd::prelude::*;
use crate::chart_spec::Theme;

verus! {

/// A colour by its red, green and blue parts.
#[derive(Debug, Clone, Copy, PartialEq, Eq, Structural)]
pub struct Rgb {
    pub r: u8,
    pub g: u8,
    pub b: u8,
}

/// The colour with the given parts.
pub open spec fn rgb(r: u8, g: u8, b: u8) -> Rgb {
    Rgb { r, g, b }
}

/// The colours of the text of a chart.
#[derive(Debug, Clone, Copy, PartialEq, Eq, Structural)]
pub struct TextColors {
    /// The main title.
    pub title: Rgb,
    /// Axis labels and descriptions.
    pub axis_labels: Rgb,
    /// Labels of data points and legends.
    pub data_labels: Rgb,
    /// Grid and mesh lines.
    pub grid: Rgb,
}

/// The background colours of a chart.
#[derive(Debug, Clone, Copy, PartialEq, Eq, Structural)]
pub struct BackgroundColors {
    /// The region in which the chart is drawn.
    pub chart: Rgb,
    /// The whole surface.
    pub canvas: Rgb,
}

/// The colours of a theme: the series colours in their order, the text
/// colours and the backgrounds.
#[derive(Debug)]
pub struct ColorPalette {
    pub primary: Vec<Rgb>,
    pub text: TextColors,
    pub background: BackgroundColors,
}

/// The sizes of text, in points.
#[derive(Debug, Clone, Copy, PartialEq, Eq, Structural)]
pub struct FontSizes {
    pub title: u32,
    pub axis_description: u32,
    pub axis_labels: u32,
    pub legend: u32,
}

/// The font family and the sizes of text.
#[derive(Debug)]
pub struct Typography {
    pub font_family: String,
    pub sizes: FontSizes,
}

/// The margins around a chart, in pixels.
#[derive(Debug, Clone, Copy, PartialEq, Eq, Structural)]
pub struct Margins {
    pub chart: u32,
    pub complex: u32,
}

/// The sizes of the areas that hold labels and the legend, in pixels.
#[derive(Debug, Clone, Copy, PartialEq, Eq, Structural)]
pub struct AreaSizes {
    pub x_label_area: u32,
    pub y_label_area: u32,
    pub legend_area: u32,
}

/// The sizes of points and lines in pixels, and the share of its slot that a
/// bar fills, in percent.
#[derive(Debug, Clone, Copy, PartialEq, Eq, Structural)]
pub struct ElementSizes {
    pub line_points: u32,
    pub line_width: u32,
    pub bar_spacing: u32,
}

/// The metrics of the layout.
#[derive(Debug, Clone, Copy, PartialEq, Eq, Structural)]
pub struct Layout {
    pub margins: Margins,
    pub areas: AreaSizes,
    pub elements: ElementSizes,
}

/// The paddings between the parts of a chart, in pixels.
#[derive(Debug, Clone, Copy, PartialEq, Eq, Structural)]
pub struct Spacing {
    pub element_padding: u32,
    pub series_spacing: u32,
    pub text_padding: u32,
}

/// The style of a chart, resolved from a theme.
#[derive(Debug)]
pub struct ChartStyle {
    pub colors: ColorPalette,
    pub typography: Typography,
    pub layout: Layout,
    pub spacing: Spacing,
    pub theme: Theme,
}

/// The style of a heatmap: the lowest and highest intensity of a cell, and
/// the two ends of the gradient.
#[derive(Debug, Clone, Copy)]
pub struct HeatmapStyle {
    pub intensity_range: (u32, u32),
    pub gradient_colors: (Rgb, Rgb),
}

/// A font: its family, its size and its colour.
#[derive(Debug)]
pub struct FontStyle {
    pub family: String,
    pub size: u32,
    pub color: Rgb,
}

/// The series colours of a theme, in their order.
pub open spec fn series_colors(theme: Theme) -> Seq<Rgb> {
    match theme {
        Theme::Light => seq![
            rgb(31, 119, 180),
            rgb(255, 127, 14),
            rgb(44, 160, 44),
            rgb(214, 39, 40),
            rgb(148, 103, 189),
            rgb(140, 86, 75),
            rgb(227, 119, 194),
            rgb(127, 127, 127),
            rgb(188, 189, 34),
            rgb(23, 190, 207),
        ],
        Theme::Dark => seq![
            rgb(114, 158, 206),
            rgb(255, 158, 74),
            rgb(103, 191, 92),
            rgb(237, 102, 93),
            rgb(173, 139, 201),
            rgb(168, 120, 110),
            rgb(237, 151, 202),
            rgb(162, 162, 162),
            rgb(205, 204, 93),
            rgb(109, 204, 218),
        ],
    }
}

/// The text colours of a theme.
pub open spec fn text_colors(theme: Theme) -> TextColors {
    match theme {
        Theme::Light => TextColors {
            title: rgb(33, 37, 41),
            axis_labels: rgb(80, 80, 80),
            data_labels: rgb(100, 100, 100),
            grid: rgb(222, 226, 230),
        },
        Theme::Dark => TextColors {
            title: rgb(248, 249, 250),
            axis_labels: rgb(200, 200, 200),
            data_labels: rgb(180, 180, 180),
            grid: rgb(73, 80, 87),
        },
    }
}

/// The background colours of a theme.
pub open spec fn background_colors(theme: Theme) -> BackgroundColors {
    match theme {
        Theme::Light => BackgroundColors { chart: rgb(255, 255, 255), canvas: rgb(255, 255, 255) },
        Theme::Dark => BackgroundColors { chart: rgb(33, 37, 41), canvas: rgb(33, 37, 41) },
    }
}

impl TextColors {
    fn light() -> (c: TextColors)
        ensures
            c == text_colors(Theme::Light),
    {
        TextColors {
            title: Rgb { r: 33, g: 37, b: 41 },
            axis_labels: Rgb { r: 80, g: 80, b: 80 },
            data_labels: Rgb { r: 100, g: 100, b: 100 },
            grid: Rgb { r: 222, g: 226, b: 230 },
        }
    }

    fn dark() -> (c: TextColors)
        ensures
            c == text_colors(Theme::Dark),
    {
        TextColors {
            title: Rgb { r: 248, g: 249, b: 250 },
            axis_labels: Rgb { r: 200, g: 200, b: 200 },
            data_labels: Rgb { r: 180, g: 180, b: 180 },
            grid: Rgb { r: 73, g: 80, b: 87 },
        }
    }
}

impl Default for TextColors {
    fn default() -> (c: TextColors)
        ensures
            c == text_colors(Theme::Light),
    {
        TextColors::light()
    }
}

impl BackgroundColors {
    fn light() -> (c: BackgroundColors)
        ensures
            c == background_colors(Theme::Light),
    {
        BackgroundColors {
            chart: Rgb { r: 255, g: 255, b: 255 },
            canvas: Rgb { r: 255, g: 255, b: 255 },
        }
    }

    fn dark() -> (c: BackgroundColors)
        ensures
            c == background_colors(Theme::Dark),
    {
        BackgroundColors { chart: Rgb { r: 33, g: 37, b: 41 }, canvas: Rgb { r: 33, g: 37, b: 41 } }
    }
}

impl Default for BackgroundColors {
    fn default() -> (c: BackgroundColors)
        ensures
            c == background_colors(Theme::Light),
    {
        BackgroundColors::light()
    }
}

impl ColorPalette {
    /// The palette of a theme.
    pub fn new(theme: &Theme) -> (p: ColorPalette)
        ensures
            p.primary@ == series_colors(*theme),
            p.text == text_colors(*theme),
            p.background == background_colors(*theme),
    {
        match theme {
            Theme::Light => ColorPalette::light(),
            Theme::Dark => ColorPalette::dark(),
        }
    }

    fn light() -> (p: ColorPalette)
        ensures
            p.primary@ == series_colors(Theme::Light),
            p.text == text_colors(Theme::Light),
            p.background == background_colors(Theme::Light),
    {
        let mut primary: Vec<Rgb> = Vec::new();
        primary.push(Rgb { r: 31, g: 119, b: 180 });
        primary.push(Rgb { r: 255, g: 127, b: 14 });
        primary.push(Rgb { r: 44, g: 160, b: 44 });
        primary.push(Rgb { r: 214, g: 39, b: 40 });
        primary.push(Rgb { r: 148, g: 103, b: 189 });
        primary.push(Rgb { r: 140, g: 86, b: 75 });
        primary.push(Rgb { r: 227, g: 119, b: 194 });
        primary.push(Rgb { r: 127, g: 127, b: 127 });
        primary.push(Rgb { r: 188, g: 189, b: 34 });
        primary.push(Rgb { r: 23, g: 190, b: 207 });
        assert(primary@ =~= series_colors(Theme::Light));
        ColorPalette { primary, text: TextColors::light(), background: BackgroundColors::light() }
    }

    fn dark() -> (p: ColorPalette)
        ensures
            p.primary@ == series_colors(Theme::Dark),
            p.text == text_colors(Theme::Dark),
            p.background == background_colors(Theme::Dark),
    {
        let mut primary: Vec<Rgb> = Vec::new();
        primary.push(Rgb { r: 114, g: 158, b: 206 });
        primary.push(Rgb { r: 255, g: 158, b: 74 });
        primary.push(Rgb { r: 103, g: 191, b: 92 });
        primary.push(Rgb { r: 237, g: 102, b: 93 });
        primary.push(Rgb { r: 173, g: 139, b: 201 });
        primary.push(Rgb { r: 168, g: 120, b: 110 });
        primary.push(Rgb { r: 237, g: 151, b: 202 });
        primary.push(Rgb { r: 162, g: 162, b: 162 });
        primary.push(Rgb { r: 205, g: 204, b: 93 });
        primary.push(Rgb { r: 109, g: 204, b: 218 });
        assert(primary@ =~= series_colors(Theme::Dark));
        ColorPalette { primary, text: TextColors::dark(), background: BackgroundColors::dark() }
    }
}

impl Default for ColorPalette {
    fn default() -> (p: ColorPalette)
        ensures
            p.primary@ == series_colors(Theme::Light),
            p.text == text_colors(Theme::Light),
            p.background == background_colors(Theme::Light),
    {
        ColorPalette::new(&Theme::Light)
    }
}

/// The sizes of text of every theme.
pub open spec fn font_sizes() -> FontSizes {
    FontSizes { title: 36, axis_description: 20, axis_labels: 16, legend: 14 }
}

impl Default for FontSizes {
    fn default() -> (s: FontSizes)
        ensures
            s == font_sizes(),
    {
        FontSizes { title: 36, axis_description: 20, axis_labels: 16, legend: 14 }
    }
}

/// The font family of every theme.
pub open spec fn font_family() -> Seq<char> {
    "sans-serif"@
}

impl Default for Typography {
    fn default() -> (t: Typography)
        ensures
            t.font_family@ == font_family(),
            t.sizes == font_sizes(),
    {
        Typography { font_family: String::from_str("sans-serif"), sizes: FontSizes::default() }
    }
}

/// The layout metrics of every theme.
pub open spec fn layout_metrics() -> Layout {
    Layout {
        margins: Margins { chart: 30, complex: 40 },
        areas: AreaSizes { x_label_area: 80, y_label_area: 80, legend_area: 60 },
        elements: ElementSizes { line_points: 4, line_width: 2, bar_spacing: 80 },
    }
}

impl Default for Margins {
    fn default() -> (m: Margins)
        ensures
            m == layout_metrics().margins,
    {
        Margins { chart: 30, complex: 40 }
    }
}

impl Default for AreaSizes {
    fn default() -> (a: AreaSizes)
        ensures
            a == layout_metrics().areas,
    {
        AreaSizes { x_label_area: 80, y_label_area: 80, legend_area: 60 }
    }
}

impl Default for ElementSizes {
    fn default() -> (e: ElementSizes)
        ensures
            e == layout_metrics().elements,
    {
        ElementSizes { line_points: 4, line_width: 2, bar_spacing: 80 }
    }
}

impl Default for Layout {
    fn default() -> (l: Layout)
        ensures
            l == layout_metrics(),
    {
        Layout {
            margins: Margins::default(),
            areas: AreaSizes::default(),
            elements: ElementSizes::default(),
        }
    }
}

/// The paddings of every theme.
pub open spec fn spacing_metrics() -> Spacing {
    Spacing { element_padding: 10, series_spacing: 5, text_padding: 8 }
}

impl Default for Spacing {
    fn default() -> (s: Spacing)
        ensures
            s == spacing_metrics(),
    {
        Spacing { element_padding: 10, series_spacing: 5, text_padding: 8 }
    }
}

/// The style of heatmaps.
pub open spec fn heatmap_metrics() -> HeatmapStyle {
    HeatmapStyle {
        intensity_range: (60, 180),
        gradient_colors: (rgb(180, 190, 200), rgb(60, 80, 120)),
    }
}

impl Default for HeatmapStyle {
    fn default() -> (h: HeatmapStyle)
        ensures
            h == heatmap_metrics(),
    {
        HeatmapStyle {
            intensity_range: (60, 180),
            gradient_colors: (Rgb { r: 180, g: 190, b: 200 }, Rgb { r: 60, g: 80, b: 120 }),
        }
    }
}

impl ChartStyle {
    /// What every style of the theme holds: the theme's palette, and the
    /// typography, layout and spacing that all themes share.
    pub open spec fn is_style_of(&self, theme: Theme) -> bool {
        &&& self.theme == theme
        &&& self.colors.primary@ == series_colors(theme)
        &&& self.colors.text == text_colors(theme)
        &&& self.colors.background == background_colors(theme)
        &&& self.typography.font_family@ == font_family()
        &&& self.typography.sizes == font_sizes()
        &&& self.layout == layout_metrics()
        &&& self.spacing == spacing_metrics()
    }

    /// The style of a theme.
    pub fn new(theme: Theme) -> (s: ChartStyle)
        ensures
            s.is_style_of(theme),
    {
        ChartStyle {
            colors: ColorPalette::new(&theme),
            typography: Typography::default(),
            layout: Layout::default(),
            spacing: Spacing::default(),
            theme,
        }
    }

    /// The series colour for the item at `index`; the colours repeat in a
    /// cycle. A palette without colours gives black.
    pub fn get_primary_color(&self, index: usize) -> (c: Rgb)
        ensures
            self.colors.primary@.len() > 0 ==> c == self.colors.primary@[index as int
                % self.colors.primary@.len() as int],
            self.colors.primary@.len() == 0 ==> c == rgb(0, 0, 0),
    {
        let n: usize = self.colors.primary.len();
        if n == 0 {
            Rgb { r: 0, g: 0, b: 0 }
        } else {
            self.colors.primary[index % n]
        }
    }

    /// The font of the title.
    pub fn title_font(&self) -> (f: FontStyle)
        ensures
            f.family@ == self.typography.font_family@,
            f.size == self.typography.sizes.title,
            f.color == self.colors.text.title,
    {
        FontStyle {
            family: self.typography.font_family.clone(),
            size: self.typography.sizes.title,
            color: self.colors.text.title,
        }
    }

    /// The font of the axis descriptions.
    pub fn axis_desc_font(&self) -> (f: FontStyle)
        ensures
            f.family@ == self.typography.font_family@,
            f.size == self.typography.sizes.axis_description,
            f.color == self.colors.text.axis_labels,
    {
        FontStyle {
            family: self.typography.font_family.clone(),
            size: self.typography.sizes.axis_description,
            color: self.colors.text.axis_labels,
        }
    }

    /// The font of the axis tick labels.
    pub fn axis_label_font(&self) -> (f: FontStyle)
        ensures
            f.family@ == self.typography.font_family@,
            f.size == self.typography.sizes.axis_labels,
            f.color == self.colors.text.data_labels,
    {
        FontStyle {
            family: self.typography.font_family.clone(),
            size: self.typography.sizes.axis_labels,
            color: self.colors.text.data_labels,
        }
    }

    /// The font of the legend.
    pub fn legend_font(&self) -> (f: FontStyle)
        ensures
            f.family@ == self.typography.font_family@,
            f.size == self.typography.sizes.legend,
            f.color == self.colors.text.data_labels,
    {
        FontStyle {
            family: self.typography.font_family.clone(),
            size: self.typography.sizes.legend,
            color: self.colors.text.data_labels,
        }
    }
}

impl Default for ChartStyle {
    fn default() -> (s: ChartStyle)
        ensures
            s.is_style_of(Theme::Light),
    {
        ChartStyle::new(Theme::Light)
    }
}

/// The style of the light theme.
pub fn get_chart_style() -> (s: ChartStyle)
    ensures
        s.is_style_of(Theme::Light),
{
    ChartStyle::default()
}

/// The style of the given theme.
pub fn get_chart_style_with_theme(theme: &Theme) -> (s: ChartStyle)
    ensures
        s.is_style_of(*theme),
{
    ChartStyle::new(*theme)
}

/// The style of heatmaps.
pub fn get_heatmap_style() -> (h: HeatmapStyle)
    ensures
        h == heatmap_metrics(),
{
    HeatmapStyle::default()
}

} // verus!
