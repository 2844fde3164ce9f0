//! The settings that the verified logic reads: colours, the display
//! switches, the built-in skin palettes, and which skin is active.

use vstd::prelude::*;

verus! {

/// An RGBA colour with unmultiplied alpha.
#[derive(Debug, Clone, Copy, PartialEq, Eq, Structural)]
pub struct Color32Cfg {
    pub r: u8,
    pub g: u8,
    pub b: u8,
    pub a: u8,
}

impl Color32Cfg {
    /// The colour with the given channels.
    pub fn new(r: u8, g: u8, b: u8, a: u8) -> (res: Self)
        ensures
            res.r == r,
            res.g == g,
            res.b == b,
            res.a == a,
    {
        Color32Cfg { r, g, b, a }
    }
}

/// Which items the floating panel shows.
#[derive(Debug, Clone, Copy, PartialEq, Eq, Structural)]
pub struct DisplayConfig {
    pub show_upload: bool,
    pub show_download: bool,
    pub show_cpu: bool,
    pub show_cpu_temp: bool,
    pub show_memory: bool,
    pub show_cpu_bar: bool,
    pub show_mem_bar: bool,
    pub show_gpu: bool,
    pub show_gpu_temp: bool,
    pub show_vram: bool,
    pub show_gpu_bar: bool,
    pub show_net_graph: bool,
    pub show_units: bool,
    pub show_percent_sign: bool,
}

impl Default for DisplayConfig {
    /// Everything shown but the network graph.
    fn default() -> (res: Self)
        ensures
            res.show_upload && res.show_download,
            res.show_cpu && res.show_cpu_temp && res.show_cpu_bar,
            res.show_memory && res.show_mem_bar,
            res.show_gpu && res.show_gpu_temp && res.show_vram && res.show_gpu_bar,
            !res.show_net_graph,
            res.show_units && res.show_percent_sign,
    {
        DisplayConfig {
            show_upload: true,
            show_download: true,
            show_cpu: true,
            show_cpu_temp: true,
            show_memory: true,
            show_cpu_bar: true,
            show_mem_bar: true,
            show_gpu: true,
            show_gpu_temp: true,
            show_vram: true,
            show_gpu_bar: true,
            show_net_graph: false,
            show_units: true,
            show_percent_sign: true,
        }
    }
}

/// The name and colours of a skin; its sizes and opacity are kept by the
/// user interface.
#[derive(Debug)]
pub struct SkinPalette {
    pub name: String,
    pub background_color: Color32Cfg,
    pub text_color: Color32Cfg,
    pub upload_color: Color32Cfg,
    pub download_color: Color32Cfg,
    pub cpu_bar_color: Color32Cfg,
    pub mem_bar_color: Color32Cfg,
    pub gpu_bar_color: Color32Cfg,
    pub border_color: Color32Cfg,
}

impl SkinPalette {
    /// The eight colours in field order: background, text, upload,
    /// download, CPU bar, memory bar, GPU bar, border.
    pub open spec fn colors(self) -> Seq<Color32Cfg> {
        seq![
            self.background_color, self.text_color, self.upload_color, self.download_color,
            self.cpu_bar_color, self.mem_bar_color, self.gpu_bar_color, self.border_color,
        ]
    }
}

/// An opaque colour, in spec code.
pub open spec fn opaque(r: u8, g: u8, b: u8) -> Color32Cfg {
    Color32Cfg { r, g, b, a: 255 }
}

/// The number of built-in skins.
pub open spec fn builtin_skin_count() -> nat {
    4
}

/// The name of the built-in skin `i`: dark, light, green matrix, blue neon.
pub open spec fn builtin_skin_name(i: int) -> Seq<char> {
    if i == 0 { "深色"@ }
    else if i == 1 { "浅色"@ }
    else if i == 2 { "绿色矩阵"@ }
    else { "蓝色霓虹"@ }
}

/// The colours of the built-in skin `i`, in the order of `SkinPalette::colors`.
pub open spec fn builtin_skin_colors(i: int) -> Seq<Color32Cfg> {
    if i == 0 {
        seq![opaque(18, 18, 24), opaque(220, 220, 220), opaque(80, 210, 100), opaque(80, 150, 255),
            opaque(255, 175, 50), opaque(200, 100, 255), opaque(0, 220, 200), opaque(60, 60, 80)]
    } else if i == 1 {
        seq![opaque(240, 240, 245), opaque(30, 30, 30), opaque(0, 150, 60), opaque(0, 80, 200),
            opaque(220, 120, 0), opaque(150, 0, 200), opaque(0, 180, 160), opaque(180, 180, 180)]
    } else if i == 2 {
        seq![opaque(0, 18, 0), opaque(0, 255, 80), opaque(0, 200, 100), opaque(0, 255, 180),
            opaque(50, 255, 50), opaque(0, 200, 100), opaque(100, 255, 220), opaque(0, 100, 0)]
    } else {
        seq![opaque(5, 8, 30), opaque(100, 180, 255), opaque(0, 220, 255), opaque(80, 120, 255),
            opaque(0, 200, 255), opaque(150, 80, 255), opaque(0, 255, 200), opaque(0, 80, 160)]
    }
}

fn palette(
    name: &str,
    background: Color32Cfg,
    text: Color32Cfg,
    upload: Color32Cfg,
    download: Color32Cfg,
    cpu_bar: Color32Cfg,
    mem_bar: Color32Cfg,
    gpu_bar: Color32Cfg,
    border: Color32Cfg,
) -> (res: SkinPalette)
    ensures
        res.name@ == name@,
        res.colors() == seq![background, text, upload, download, cpu_bar, mem_bar, gpu_bar, border],
{
    SkinPalette {
        name: String::from_str(name),
        background_color: background,
        text_color: text,
        upload_color: upload,
        download_color: download,
        cpu_bar_color: cpu_bar,
        mem_bar_color: mem_bar,
        gpu_bar_color: gpu_bar,
        border_color: border,
    }
}

/// The palettes of the four built-in skins: dark, light, green matrix and
/// blue neon, in that order.
pub fn builtin_palettes() -> (res: Vec<SkinPalette>)
    ensures
        res@.len() == builtin_skin_count(),
        forall|i: int| 0 <= i < res@.len() ==> {
            &&& #[trigger] res@[i].name@ == builtin_skin_name(i)
            &&& res@[i].colors() == builtin_skin_colors(i)
        },
{
    let c = |r: u8, g: u8, b: u8| -> (res: Color32Cfg)
        ensures
            res == opaque(r, g, b),
    { Color32Cfg::new(r, g, b, 255) };
    let mut v: Vec<SkinPalette> = Vec::new();
    v.push(palette("深色",
        c(18, 18, 24), c(220, 220, 220), c(80, 210, 100), c(80, 150, 255),
        c(255, 175, 50), c(200, 100, 255), c(0, 220, 200), c(60, 60, 80)));
    v.push(palette("浅色",
        c(240, 240, 245), c(30, 30, 30), c(0, 150, 60), c(0, 80, 200),
        c(220, 120, 0), c(150, 0, 200), c(0, 180, 160), c(180, 180, 180)));
    v.push(palette("绿色矩阵",
        c(0, 18, 0), c(0, 255, 80), c(0, 200, 100), c(0, 255, 180),
        c(50, 255, 50), c(0, 200, 100), c(100, 255, 220), c(0, 100, 0)));
    v.push(palette("蓝色霓虹",
        c(5, 8, 30), c(100, 180, 255), c(0, 220, 255), c(80, 120, 255),
        c(0, 200, 255), c(150, 80, 255), c(0, 255, 200), c(0, 80, 160)));
    v
}

/// The index of the active skin: the selected one, or the last skin where
/// the selection lies beyond the list.
pub fn active_skin_index(selected_skin_index: usize, skin_count: usize) -> (res: usize)
    requires
        skin_count > 0,
    ensures
        res < skin_count,
        res == if selected_skin_index < skin_count { selected_skin_index } else { (skin_count - 1) as usize },
{
    let last = skin_count - 1;
    if selected_skin_index < last { selected_skin_index } else { last }
}

} // verus!
