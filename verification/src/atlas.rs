use vstd::prelude::*;
use vstd::string::StringExecFns;

use crate::decimal::{decimal, u32_to_decimal};
use crate::tile_key::TileKey;

verus! {

/// Size in texels of one imagery texture attached to a terrain tile.
#[derive(Clone, Copy, Debug, PartialEq, Eq, Structural)]
pub struct AttachmentSize {
    pub width: u32,
    pub height: u32,
}

/// Widest attachment among the first `n`.
pub open spec fn max_width(s: Seq<AttachmentSize>, n: int) -> int
    decreases n,
{
    if n <= 0 {
        0
    } else {
        let w = max_width(s, n - 1);
        if w < s[n - 1].width { s[n - 1].width as int } else { w }
    }
}

/// Total height of the first `n` attachments.
pub open spec fn total_height(s: Seq<AttachmentSize>, n: int) -> int
    decreases n,
{
    if n <= 0 { 0 } else { total_height(s, n - 1) + s[n - 1].height }
}

/// Number of attachments, as a `u32` (the length wrapped to 32 bits).
pub fn count(attachments: &Vec<AttachmentSize>) -> (r: u32)
    ensures
        r == attachments.len() as u32,
{
    attachments.len() as u32
}

/// Extent of the texture array holding all attachments stacked: the widest
/// attachment's width, the attachments' total height and their number.
pub fn get_array_texture_size(attachments: &Vec<AttachmentSize>) -> (r: (u32, u32, u32))
    requires
        total_height(attachments@, attachments.len() as int) <= u32::MAX,
    ensures
        r.0 == max_width(attachments@, attachments.len() as int),
        r.1 == total_height(attachments@, attachments.len() as int),
        r.2 == attachments.len() as u32,
{
    let mut max: u32 = 0;
    let mut height: u32 = 0;
    let mut i: usize = 0;
    proof {
        lemma_total_height_monotone(attachments@, 0, attachments.len() as int);
    }
    while i < attachments.len()
        invariant
            i <= attachments.len(),
            max == max_width(attachments@, i as int),
            height == total_height(attachments@, i as int),
            total_height(attachments@, attachments.len() as int) <= u32::MAX,
        decreases attachments.len() - i,
    {
        let attachment = attachments[i];
        if max < attachment.width {
            max = attachment.width;
        }
        proof {
            lemma_total_height_monotone(attachments@, i + 1, attachments.len() as int);
        }
        height = height + attachment.height;
        i = i + 1;
    }
    (max, height, attachments.len() as u32)
}

proof fn lemma_total_height_monotone(s: Seq<AttachmentSize>, a: int, b: int)
    requires
        0 <= a <= b <= s.len(),
    ensures
        total_height(s, a) <= total_height(s, b),
    decreases b - a,
{
    if a < b {
        lemma_total_height_monotone(s, a, b - 1);
    }
}

/// Label of the texture array of a tile's attachments:
/// `terrain_atlas_attachment_{x}_{y}_{level}`.
pub open spec fn attachment_label_text(key: TileKey) -> Seq<char> {
    "terrain_atlas_attachment_"@ + decimal(key.x as nat) + "_"@ + decimal(key.y as nat) + "_"@
        + decimal(key.level as nat)
}

/// The label given to the texture array of a tile's attachments.
pub fn attachment_label(key: &TileKey) -> (r: String)
    ensures
        r@ == attachment_label_text(*key),
{
    let mut label = String::new();
    label.append("terrain_atlas_attachment_");
    label.append(u32_to_decimal(key.x).as_str());
    label.append("_");
    label.append(u32_to_decimal(key.y).as_str());
    label.append("_");
    label.append(u32_to_decimal(key.level).as_str());
    proof {
        assert(label@ =~= attachment_label_text(*key));
    }
    label
}

/// Which optional shader features a terrain material uses.
#[derive(Clone, Copy, Debug, PartialEq, Eq, Structural)]
pub struct ShaderDefines {
    pub apply_brightness: bool,
    pub apply_contrast: bool,
    pub apply_hue: bool,
    pub apply_saturation: bool,
    pub apply_gamma: bool,
    pub apply_alpha: bool,
    pub apply_day_night_alpha: bool,
    pub apply_split: bool,
    pub apply_cutout: bool,
    pub apply_color_to_alpha: bool,
    pub apply_quantization_bits12: bool,
    pub apply_webmercator_t: bool,
}

/// `name` if `on`, else nothing.
pub open spec fn def_if(on: bool, name: Seq<char>) -> Seq<Seq<char>> {
    if on { seq![name] } else { seq![] }
}

/// The fragment shader definitions of a terrain material, in order.
pub open spec fn fragment_defs(d: ShaderDefines) -> Seq<Seq<char>> {
    def_if(d.apply_brightness, "APPLY_BRIGHTNESS"@) + def_if(d.apply_contrast, "APPLY_CONTRAST"@)
        + def_if(d.apply_hue, "APPLY_HUE"@) + def_if(d.apply_saturation, "APPLY_SATURATION"@)
        + def_if(d.apply_gamma, "APPLY_GAMMA"@) + def_if(d.apply_alpha, "APPLY_ALPHA"@)
        + def_if(d.apply_day_night_alpha, "APPLY_DAY_NIGHT_ALPHA"@)
}

/// The views of a list of texts.
pub open spec fn texts_view(s: Seq<&'static str>) -> Seq<Seq<char>> {
    s.map_values(|t: &'static str| t@)
}

fn push_def(defs: &mut Vec<&'static str>, on: bool, name: &'static str)
    ensures
        texts_view(final(defs)@) == texts_view(old(defs)@) + def_if(on, name@),
{
    let ghost before = defs@;
    if on {
        defs.push(name);
        proof {
            assert(texts_view(defs@) =~= texts_view(before) + def_if(on, name@));
        }
    } else {
        proof {
            assert(texts_view(defs@) =~= texts_view(before) + def_if(on, name@));
        }
    }
}

/// The fragment shader definitions that the features of a terrain material
/// switch on, in the order the shader expects them.
pub fn fragment_shader_defs(d: &ShaderDefines) -> (r: Vec<&'static str>)
    ensures
        texts_view(r@) == fragment_defs(*d),
{
    let mut defs: Vec<&'static str> = Vec::new();
    proof {
        assert(texts_view(defs@) =~= Seq::<Seq<char>>::empty());
    }
    push_def(&mut defs, d.apply_brightness, "APPLY_BRIGHTNESS");
    push_def(&mut defs, d.apply_contrast, "APPLY_CONTRAST");
    push_def(&mut defs, d.apply_hue, "APPLY_HUE");
    push_def(&mut defs, d.apply_saturation, "APPLY_SATURATION");
    push_def(&mut defs, d.apply_gamma, "APPLY_GAMMA");
    push_def(&mut defs, d.apply_alpha, "APPLY_ALPHA");
    push_def(&mut defs, d.apply_day_night_alpha, "APPLY_DAY_NIGHT_ALPHA");
    proof {
        assert(texts_view(defs@) =~= fragment_defs(*d));
    }
    defs
}

/// The vertex shader definitions of a terrain material: 12-bit quantized
/// positions when the terrain mesh uses them.
pub fn vertex_shader_defs(d: &ShaderDefines) -> (r: Vec<&'static str>)
    ensures
        texts_view(r@) == def_if(d.apply_quantization_bits12, "QUANTIZATION_BITS12"@),
{
    let mut defs: Vec<&'static str> = Vec::new();
    proof {
        assert(texts_view(defs@) =~= Seq::<Seq<char>>::empty());
    }
    push_def(&mut defs, d.apply_quantization_bits12, "QUANTIZATION_BITS12");
    proof {
        assert(texts_view(defs@) =~= def_if(d.apply_quantization_bits12, "QUANTIZATION_BITS12"@));
    }
    defs
}


/// The widest of the first `n` attachments is at least as wide as each of
/// them and as wide as one of them.
pub proof fn lemma_max_width_is_widest(s: Seq<AttachmentSize>, n: int)
    requires
        0 < n <= s.len(),
    ensures
        forall|i: int| 0 <= i < n ==> #[trigger] s[i].width <= max_width(s, n),
        exists|i: int| 0 <= i < n && #[trigger] s[i].width == max_width(s, n),
    decreases n,
{
    if n > 1 {
        lemma_max_width_is_widest(s, n - 1);
        let i = choose|i: int| 0 <= i < n - 1 && #[trigger] s[i].width == max_width(s, n - 1);
        if max_width(s, n - 1) < s[n - 1].width {
            assert(s[n - 1].width == max_width(s, n));
        } else {
            assert(s[i].width == max_width(s, n));
        }
    } else {
        assert(max_width(s, 0) == 0);
        assert(s[0].width == max_width(s, 1));
    }
}

/// Stacking the first `k` attachments and then the next ones gives the
/// height of the first `n`: the total height adds up.
pub proof fn lemma_total_height_adds(s: Seq<AttachmentSize>, k: int, n: int)
    requires
        0 <= k <= n <= s.len(),
    ensures
        total_height(s, n) == total_height(s, k) + total_height(s.subrange(k, n), n - k),
    decreases n - k,
{
    if k < n {
        lemma_total_height_adds(s, k, n - 1);
        let t = s.subrange(k, n);
        assert(t.subrange(0, n - 1 - k) =~= s.subrange(k, n - 1));
        lemma_total_height_prefix(t, n - 1 - k);
        assert(t[n - 1 - k] == s[n - 1]);
    }
}

proof fn lemma_total_height_prefix(t: Seq<AttachmentSize>, m: int)
    requires
        0 <= m < t.len(),
    ensures
        total_height(t, m) == total_height(t.subrange(0, t.len() - 1), m),
    decreases m,
{
    if m > 0 {
        lemma_total_height_prefix(t, m - 1);
    }
}

} // verus!
