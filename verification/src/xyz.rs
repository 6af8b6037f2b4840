use vstd::prelude::*;

use crate::decimal::{decimal, u32_to_decimal};
use crate::params::{get_subdomain, pairs_view, subdomain_index, ParamView};
use crate::template::{pairs_to_map, render_template, rendered_template};
use crate::tile_key::TileKey;

verus! {

/// Imagery provider for `{z}/{x}/{y}` tile URL templates: the plain settings
/// from which the tile request URLs are built. The provider's tiling scheme
/// and rectangle, which hold floating-point geometry, are kept by the caller.
pub struct XYZImageryProvider {
    /// URL template; `{s}`, `{z}`, `{x}` and `{y}` stand for the subdomain,
    /// the level, the column and the row.
    pub url: &'static str,
    pub subdomains: Option<Vec<&'static str>>,
    pub minimum_level: u32,
    pub maximum_level: u32,
    pub ready: bool,
    pub tile_width: u32,
    pub tile_height: u32,
}

/// The values substituted into the URL template for tile `key`: the
/// subdomain `s` where subdomains are configured, then `z`, `x` and `y` in
/// decimal.
pub open spec fn xyz_template_values(p: XYZImageryProvider, key: TileKey) -> Seq<ParamView> {
    let subdomain: Seq<ParamView> = match p.subdomains {
        Some(v) => seq![("s"@, v@[subdomain_index(key, v.len() as nat)]@)],
        None => seq![],
    };
    subdomain + seq![
        ("z"@, decimal(key.level as nat)),
        ("x"@, decimal(key.x as nat)),
        ("y"@, decimal(key.y as nat)),
    ]
}

/// The request URL of a tile: the template rendered with the tile's values.
pub open spec fn xyz_url(p: XYZImageryProvider, key: TileKey) -> Option<Seq<char>> {
    rendered_template(p.url@, pairs_to_map(xyz_template_values(p, key)))
}

impl Default for XYZImageryProvider {
    /// A provider with an empty template, no subdomains, levels 0 to 17 and
    /// 256 by 256 tiles, ready for use.
    fn default() -> (r: XYZImageryProvider)
        ensures
            r.url@ == Seq::<char>::empty(),
            r.subdomains is None,
            r.minimum_level == 0,
            r.maximum_level == 17,
            r.ready,
            r.tile_width == 256,
            r.tile_height == 256,
    {
        proof { reveal_strlit(""); }
        XYZImageryProvider {
            url: "",
            subdomains: None,
            minimum_level: 0,
            maximum_level: 17,
            ready: true,
            tile_width: 256,
            tile_height: 256,
        }
    }
}

impl XYZImageryProvider {
    /// The deepest level served; this provider always reports 17.
    pub fn get_maximum_level(&self) -> (r: u32)
        ensures
            r == 17,
    {
        17
    }

    pub fn get_minimum_level(&self) -> (r: u32)
        ensures
            r == self.minimum_level,
    {
        self.minimum_level
    }

    pub fn get_ready(&self) -> (r: bool)
        ensures
            r == self.ready,
    {
        self.ready
    }

    pub fn get_tile_width(&self) -> (r: u32)
        ensures
            r == self.tile_width,
    {
        self.tile_width
    }

    pub fn get_tile_height(&self) -> (r: u32)
        ensures
            r == self.tile_height,
    {
        self.tile_height
    }

    /// The request URL of tile `key`: the URL template rendered with the
    /// tile's subdomain, level, column and row; `None` where the template
    /// cannot be rendered.
    pub fn build_url(&self, key: &TileKey) -> (r: Option<String>)
        requires
            self.subdomains matches Some(v) ==> v.len() > 0 && key.y + key.x + key.level <= u32::MAX,
        ensures
            r is Some <==> xyz_url(*self, *key) is Some,
            r matches Some(u) ==> xyz_url(*self, *key) == Some(u@),
            !self.url@.contains('{') ==> (r matches Some(u) && u@ == self.url@),
    {
        let mut args: Vec<(&str, &str)> = Vec::new();
        if let Some(subdomains) = self.subdomains.as_ref() {
            let subdomain = get_subdomain(subdomains, key);
            args.push(("s", subdomain));
        }
        let level = u32_to_decimal(key.level);
        let x = u32_to_decimal(key.x);
        let y = u32_to_decimal(key.y);
        args.push(("z", level.as_str()));
        args.push(("x", x.as_str()));
        args.push(("y", y.as_str()));
        proof {
            assert(pairs_view(args@) =~= xyz_template_values(*self, *key));
        }
        render_template(self.url, &args)
    }
}


/// The template values of a tile give `{z}` its level, `{x}` its column and
/// `{y}` its row in decimal, with or without subdomains; `{s}` has a value
/// exactly when subdomains are configured, and it is one of them.
pub proof fn lemma_xyz_template_values(p: XYZImageryProvider, key: TileKey)
    ensures
        pairs_to_map(xyz_template_values(p, key)).contains_key("z"@),
        pairs_to_map(xyz_template_values(p, key))["z"@] == decimal(key.level as nat),
        pairs_to_map(xyz_template_values(p, key)).contains_key("x"@),
        pairs_to_map(xyz_template_values(p, key))["x"@] == decimal(key.x as nat),
        pairs_to_map(xyz_template_values(p, key)).contains_key("y"@),
        pairs_to_map(xyz_template_values(p, key))["y"@] == decimal(key.y as nat),
        pairs_to_map(xyz_template_values(p, key)).contains_key("s"@) <==> p.subdomains is Some,
        p.subdomains matches Some(v) ==> pairs_to_map(xyz_template_values(p, key))["s"@]
            == v@[subdomain_index(key, v.len() as nat)]@,
{
    reveal_strlit("s");
    reveal_strlit("z");
    reveal_strlit("x");
    reveal_strlit("y");
    reveal_with_fuel(pairs_to_map, 5);
    let s = xyz_template_values(p, key);
    assert("s"@ =~= seq!['s']);
    assert("z"@ =~= seq!['z']);
    assert("x"@ =~= seq!['x']);
    assert("y"@ =~= seq!['y']);
    assert("s"@[0] != "z"@[0] && "s"@[0] != "x"@[0] && "s"@[0] != "y"@[0]);
    assert("z"@[0] != "x"@[0] && "z"@[0] != "y"@[0] && "x"@[0] != "y"@[0]);
    if p.subdomains is Some {
        assert(s.len() == 4);
        assert(s.drop_last().drop_last().drop_last().drop_last() =~= Seq::<ParamView>::empty());
    } else {
        assert(s.len() == 3);
        assert(s.drop_last().drop_last().drop_last() =~= Seq::<ParamView>::empty());
    }
}

} // verus!
